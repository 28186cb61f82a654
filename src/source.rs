//! Turning a fetched feed document into items.
use crate::item::FeedItem;
use vstd::prelude::*;

verus! {

#[verifier::external_type_specification]
#[verifier::external_body]
pub struct ExRssItem(rss::Item);

/// Why a feed could not be read.
#[derive(Debug, Clone, Copy, PartialEq, Eq, Structural)]
pub enum FetchError {
    /// The document could not be retrieved.
    Network,
    /// The document is not a well-formed feed.
    ParseError,
}

impl FetchError {
    /// The human-readable text of the error.
    pub fn to_string(&self) -> (r: String)
        ensures
            r@ == match *self {
                FetchError::Network => "network error"@,
                FetchError::ParseError => "parse error"@,
            },
    {
        match self {
            FetchError::Network => "network error".to_owned(),
            FetchError::ParseError => "parse error".to_owned(),
        }
    }
}

/// Whether a byte string is a feed document that the parser accepts.
pub uninterp spec fn is_feed_document(doc: Seq<u8>) -> bool;

/// How many items a feed document holds.
pub uninterp spec fn feed_item_count(doc: Seq<u8>) -> nat;

/// Relies on `rss::Channel::read_from` and `Channel::into_items`: the items
/// of the document, in document order, when it parses.
#[verifier::external_body]
fn read_items(doc: &[u8]) -> (r: Option<Vec<rss::Item>>)
    ensures
        r is Some <==> is_feed_document(doc@),
        r matches Some(v) ==> v@.len() == feed_item_count(doc@),
{
    match rss::Channel::read_from(doc) {
        Ok(channel) => Some(channel.into_items()),
        Err(_) => None,
    }
}

/// Relies on the public fields of `rss::Item`, `rss::Category`, `rss::Guid`
/// and `rss::Source`: moves them into a `FeedItem`.
#[verifier::external_body]
fn from_rss_item(i: rss::Item) -> (r: FeedItem) {
    let (source_title, source_url) = match i.source {
        Some(s) => (s.title, Some(s.url)),
        None => (None, None),
    };
    let categories = i.categories.into_iter().map(|c| c.name).collect();
    let guid = i.guid.map(|g| g.value);
    FeedItem { title: i.title, link: i.link, description: i.description, author: i.author,
        categories, guid, pub_date: i.pub_date, source_title, source_url, content: i.content }
}

/// Parses a feed document into its items, in document order, one for each
/// item of the document. Fails, with nothing returned, when the document is
/// not a feed.
pub fn parse_feed(doc: &[u8]) -> (r: Result<Vec<FeedItem>, FetchError>)
    ensures
        r is Ok <==> is_feed_document(doc@),
        r matches Ok(v) ==> v@.len() == feed_item_count(doc@),
        r is Err ==> r == Err::<Vec<FeedItem>, FetchError>(FetchError::ParseError),
{
    let mut raw = match read_items(doc) {
        Some(v) => v,
        None => {
            return Err(FetchError::ParseError);
        },
    };
    let n = raw.len();
    let mut out: Vec<FeedItem> = Vec::new();
    while raw.len() > 0
        invariant
            out@.len() + raw@.len() == n,
        decreases raw@.len(),
    {
        let next = raw.remove(0);
        out.push(from_rss_item(next));
    }
    Ok(out)
}

} // verus!
