//! Feed items and their fingerprints.
use sha2::Digest;
use vstd::prelude::*;
use vstd::utf8::encode_utf8;

verus! {

/// One entry of a feed, as parsed from the feed document.
#[derive(Debug, Clone)]
pub struct FeedItem {
    pub title: Option<String>,
    pub link: Option<String>,
    pub description: Option<String>,
    pub author: Option<String>,
    pub categories: Vec<String>,
    pub guid: Option<String>,
    pub pub_date: Option<String>,
    pub source_title: Option<String>,
    pub source_url: Option<String>,
    pub content: Option<String>,
}

/// The text of an optional field; an absent field counts as empty.
pub open spec fn text_of(o: Option<String>) -> Seq<char> {
    match o {
        Some(s) => s@,
        None => Seq::empty(),
    }
}

/// SHA-256 of a byte string.
pub uninterp spec fn sha256_of(data: Seq<u8>) -> Seq<u8>;

/// Lowercase hexadecimal digit of a value below 16.
pub open spec fn hex_digit(n: u8) -> char {
    seq!['0', '1', '2', '3', '4', '5', '6', '7', '8', '9', 'a', 'b', 'c', 'd', 'e', 'f'][n as int]
}

/// Two lowercase hex digits per byte, high nibble first.
pub open spec fn hex_spec(b: Seq<u8>) -> Seq<char>
    decreases b.len(),
{
    if b.len() == 0 {
        Seq::empty()
    } else {
        hex_spec(b.drop_last()) + seq![hex_digit(b.last() / 16), hex_digit(b.last() % 16)]
    }
}

/// Relies on `sha2::Sha256::digest`: the 32-byte SHA-256 digest of its input.
#[verifier::external_body]
fn sha256(data: &[u8]) -> (r: Vec<u8>)
    ensures
        r@ == sha256_of(data@),
        r@.len() == 32,
{
    sha2::Sha256::digest(data).to_vec()
}

/// Relies on `hex::encode`: each byte becomes two lowercase hex digits.
#[verifier::external_body]
fn hex_encode(data: &[u8]) -> (r: String)
    ensures
        r@ == hex_spec(data@),
{
    hex::encode(data)
}

/// What the content hash of an item without GUID is taken over: link,
/// title and description, one after the other.
pub open spec fn digest_input_spec(item: FeedItem) -> Seq<char> {
    text_of(item.link) + text_of(item.title) + text_of(item.description)
}

/// The identity of an item: its GUID verbatim, else the hex SHA-256 of the
/// UTF-8 bytes of link, title and description.
pub open spec fn fingerprint_spec(item: FeedItem) -> Seq<char> {
    match item.guid {
        Some(g) => g@,
        None => hex_spec(sha256_of(encode_utf8(digest_input_spec(item)))),
    }
}

fn append_opt(acc: &mut String, o: &Option<String>)
    ensures
        final(acc)@ == old(acc)@ + text_of(*o),
{
    match o {
        Some(s) => acc.append(s.as_str()),
        None => {
            assert(old(acc)@ + text_of(*o) =~= old(acc)@);
        },
    }
}

impl FeedItem {
    /// The text that the content hash covers.
    pub fn digest_input(&self) -> (r: String)
        ensures
            r@ == digest_input_spec(*self),
    {
        let mut acc: String = String::new();
        append_opt(&mut acc, &self.link);
        append_opt(&mut acc, &self.title);
        append_opt(&mut acc, &self.description);
        assert(acc@ =~= digest_input_spec(*self));
        acc
    }

    /// The identity under which the item is deduplicated.
    pub fn fingerprint(&self) -> (r: String)
        ensures
            r@ == fingerprint_spec(*self),
            self.guid is None ==> r@.len() == 64,
    {
        match &self.guid {
            Some(g) => g.clone(),
            None => {
                let text = self.digest_input();
                let digest = sha256(text.as_str().as_bytes());
                proof {
                    lemma_hex_len(digest@);
                }
                self.fingerprint_with_digest(digest.as_slice())
            },
        }
    }

    /// The fingerprint, given the digest of the item's `digest_input`: the
    /// GUID when there is one, else the digest in lowercase hex.
    pub fn fingerprint_with_digest(&self, digest: &[u8]) -> (r: String)
        ensures
            r@ == match self.guid {
                Some(g) => g@,
                None => hex_spec(digest@),
            },
    {
        match &self.guid {
            Some(g) => g.clone(),
            None => hex_encode(digest),
        }
    }
}

/// An item with a GUID is identified by that GUID, whatever its other
/// fields hold.
pub proof fn lemma_fingerprint_is_guid(item: FeedItem)
    requires
        item.guid is Some,
    ensures
        fingerprint_spec(item) == item.guid->0@,
{
}

/// Two items without GUID whose link, title and description agree have the
/// same fingerprint, whatever their other fields hold.
pub proof fn lemma_fingerprint_depends_on_triple(a: FeedItem, b: FeedItem)
    requires
        a.guid is None,
        b.guid is None,
        text_of(a.link) == text_of(b.link),
        text_of(a.title) == text_of(b.title),
        text_of(a.description) == text_of(b.description),
    ensures
        fingerprint_spec(a) == fingerprint_spec(b),
{
}

proof fn lemma_hex_len(b: Seq<u8>)
    ensures
        hex_spec(b).len() == 2 * b.len(),
    decreases b.len(),
{
    if b.len() > 0 {
        lemma_hex_len(b.drop_last());
    }
}

} // verus!
