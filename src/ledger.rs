//! What the durable ledger writes and how its answers are read.
use crate::engine::views;
use crate::item::FeedItem;
use vstd::prelude::*;

verus! {

/// The JSON array text of a list of strings.
pub uninterp spec fn json_string_array(items: Seq<Seq<char>>) -> Seq<char>;

/// Relies on `serde_json::to_string`: the JSON text of the list. A list of
/// strings always serialises (strings never fail, and the writer is a `Vec`).
#[verifier::external_body]
fn to_json_array(items: &Vec<String>) -> (r: Option<String>)
    ensures
        r is Some,
        r matches Some(j) ==> j@ == json_string_array(views(items@)),
{
    serde_json::to_string(items).ok()
}

/// One row of the item archive.
#[derive(Debug, Clone)]
pub struct ArchiveRow {
    pub id: String,
    pub title: Option<String>,
    pub link: Option<String>,
    pub description: Option<String>,
    pub author: Option<String>,
    pub categories: Option<String>,
    pub guid: Option<String>,
    pub pub_date: String,
    pub source_title: Option<String>,
    pub source_url: Option<String>,
    pub content: Option<String>,
    pub feed_source: String,
    pub archived_at: String,
}

pub open spec fn opt_view(o: Option<String>) -> Option<Seq<char>> {
    match o {
        Some(s) => Some(s@),
        None => None,
    }
}

fn clone_opt(o: &Option<String>) -> (r: Option<String>)
    ensures
        opt_view(r) == opt_view(*o),
{
    match o {
        Some(s) => Some(s.clone()),
        None => None,
    }
}

/// The archive row of `item` under fingerprint `id`, first seen on feed
/// `feed_source` at time `now`. An item without publication date is dated
/// `now`; its categories are stored as a JSON array, or not at all when
/// there are none.
pub fn archive_row(item: &FeedItem, id: &str, feed_source: &str, now: &str) -> (r: ArchiveRow)
    ensures
        r.id@ == id@,
        opt_view(r.title) == opt_view(item.title),
        opt_view(r.link) == opt_view(item.link),
        opt_view(r.description) == opt_view(item.description),
        opt_view(r.author) == opt_view(item.author),
        opt_view(r.guid) == opt_view(item.guid),
        opt_view(r.source_title) == opt_view(item.source_title),
        opt_view(r.source_url) == opt_view(item.source_url),
        opt_view(r.content) == opt_view(item.content),
        r.pub_date@ == (match item.pub_date {
            Some(d) => d@,
            None => now@,
        }),
        item.categories@.len() == 0 ==> r.categories is None,
        item.categories@.len() > 0 ==> (r.categories matches Some(j) && j@ == json_string_array(
            views(item.categories@),
        )),
        r.feed_source@ == feed_source@,
        r.archived_at@ == now@,
{
    let categories = if item.categories.len() == 0 {
        None
    } else {
        to_json_array(&item.categories)
    };
    let pub_date = match &item.pub_date {
        Some(d) => d.clone(),
        None => now.to_owned(),
    };
    ArchiveRow {
        id: id.to_owned(),
        title: clone_opt(&item.title),
        link: clone_opt(&item.link),
        description: clone_opt(&item.description),
        author: clone_opt(&item.author),
        categories,
        guid: clone_opt(&item.guid),
        pub_date,
        source_title: clone_opt(&item.source_title),
        source_url: clone_opt(&item.source_url),
        content: clone_opt(&item.content),
        feed_source: feed_source.to_owned(),
        archived_at: now.to_owned(),
    }
}

/// Whether a mark-seen transaction discovered its item: the seen-set insert
/// added exactly one row (`None` when it failed), the archive insert
/// succeeded and the transaction committed.
pub fn discovered(seen_rows: Option<u64>, archive_ok: bool, committed: bool) -> (r: bool)
    ensures
        r == (seen_rows == Some(1u64) && archive_ok && committed),
{
    match seen_rows {
        Some(n) => n == 1 && archive_ok && committed,
        None => false,
    }
}

/// The number of statements, in a batch of roster changes, that changed a
/// row; a failed statement (`None`) is skipped.
pub open spec fn changed_count(results: Seq<Option<u64>>) -> nat
    decreases results.len(),
{
    if results.len() == 0 {
        0
    } else {
        changed_count(results.drop_last()) + match results.last() {
            Some(n) => if n > 0 {
                1nat
            } else {
                0nat
            },
            None => 0nat,
        }
    }
}

proof fn lemma_changed_count_bound(results: Seq<Option<u64>>)
    ensures
        changed_count(results) <= results.len(),
    decreases results.len(),
{
    if results.len() > 0 {
        lemma_changed_count_bound(results.drop_last());
    }
}

/// Counts the roster statements of a batch that changed a row.
pub fn count_changed(results: &Vec<Option<u64>>) -> (r: usize)
    ensures
        r == changed_count(results@),
{
    let mut count: usize = 0;
    let mut i: usize = 0;
    while i < results.len()
        invariant
            i <= results@.len(),
            count == changed_count(results@.take(i as int)),
        decreases results@.len() - i,
    {
        proof {
            assert(results@.take(i + 1).drop_last() =~= results@.take(i as int));
            lemma_changed_count_bound(results@.take(i as int));
        }
        match results[i] {
            Some(n) => {
                if n > 0 {
                    count = count + 1;
                }
            },
            None => {},
        }
        i = i + 1;
    }
    assert(results@.take(i as int) =~= results@);
    count
}

/// The seen-set's answer to an insert of `id`: the new set, and whether the
/// insert added a row.
pub open spec fn seen_insert(seen: Set<Seq<char>>, id: Seq<char>) -> (Set<Seq<char>>, bool) {
    (seen.insert(id), !seen.contains(id))
}

/// The outcomes of `n` inserts of `id` that the store runs one after the
/// other, starting from `seen`.
pub open spec fn seen_inserts(seen: Set<Seq<char>>, id: Seq<char>, n: nat) -> (Set<Seq<char>>, Seq<bool>)
    decreases n,
{
    if n == 0 {
        (seen, Seq::empty())
    } else {
        let prev = seen_inserts(seen, id, (n - 1) as nat);
        let step = seen_insert(prev.0, id);
        (step.0, prev.1.push(step.1))
    }
}

/// Of `n` committed mark-seen calls for one fingerprint against a store that
/// has not seen it, whatever order the store runs them in, exactly the first
/// reports a discovery and every later one reports the item as already
/// seen; the store then holds the fingerprint.
pub proof fn lemma_at_most_one_discovery(seen: Set<Seq<char>>, id: Seq<char>, n: nat)
    requires
        !seen.contains(id),
        n >= 1,
    ensures
        seen_inserts(seen, id, n).1[0],
        forall|i: int| 1 <= i < n ==> !#[trigger] seen_inserts(seen, id, n).1[i],
        seen_inserts(seen, id, n).0.contains(id),
        seen_inserts(seen, id, n).1.len() == n,
    decreases n,
{
    reveal_with_fuel(seen_inserts, 2);
    if n > 1 {
        lemma_at_most_one_discovery(seen, id, (n - 1) as nat);
        let prev = seen_inserts(seen, id, (n - 1) as nat);
        assert(seen_inserts(seen, id, n).1[0] == prev.1[0]);
        assert forall|i: int| 1 <= i < n implies !#[trigger] seen_inserts(seen, id, n).1[i] by {
            if i < n - 1 {
                assert(seen_inserts(seen, id, n).1[i] == prev.1[i]);
            }
        }
    }
}

} // verus!
