//! The decisions of one feed's poller: deduplicating each fetched item
//! against its recent cache and the ledger, and how long to sleep between
//! refresh cycles.
use crate::cache::{remember_spec, RecentCache};
use crate::item::FeedItem;
use crate::ledger::seen_insert;
use vstd::prelude::*;

verus! {

/// Capacity of a feed's recent-fingerprint cache.
pub const RECENT_CAPACITY: usize = 300;

/// Back-off after a failed fetch, in milliseconds (one hour).
pub const FAIL_BACKOFF_MS: u64 = 3600000;

/// What to do with an item whose fingerprint is not in the recent cache.
#[derive(Debug, Clone, Copy, PartialEq, Eq, Structural)]
pub enum ItemStep {
    /// Seen recently: nothing to do.
    Skip,
    /// Ask the ledger whether it was seen before.
    AskLedger,
}

/// First look at a fetched item: the recent cache answers without a ledger
/// round trip.
pub fn on_item(cache: &RecentCache, fp: &str) -> (r: ItemStep)
    ensures
        r == (if cache@.contains(fp@) {
            ItemStep::Skip
        } else {
            ItemStep::AskLedger
        }),
{
    if cache.contains(fp) {
        ItemStep::Skip
    } else {
        ItemStep::AskLedger
    }
}

/// The ledger's answer for an item not in the cache. An item it has seen is
/// remembered and not marked; otherwise the result asks to mark it.
pub fn on_ledger_answer(cache: &mut RecentCache, fp: String, already_seen: bool) -> (mark: bool)
    requires
        old(cache).wf(),
    ensures
        final(cache).wf(),
        mark == !already_seen,
        final(cache)@ == (if already_seen {
            remember_spec(old(cache)@, old(cache).spec_capacity(), fp@)
        } else {
            old(cache)@
        }),
        final(cache).spec_capacity() == old(cache).spec_capacity(),
{
    if already_seen {
        cache.remember(fp);
        false
    } else {
        true
    }
}

/// The ledger's answer to marking an item seen. Only the call that
/// discovered the item emits it; a failed mark leaves the cache alone, so
/// the next cycle tries again.
pub fn on_marked(cache: &mut RecentCache, fp: String, discovered: bool) -> (emit: bool)
    requires
        old(cache).wf(),
    ensures
        final(cache).wf(),
        emit == discovered,
        final(cache)@ == (if discovered {
            remember_spec(old(cache)@, old(cache).spec_capacity(), fp@)
        } else {
            old(cache)@
        }),
        final(cache).spec_capacity() == old(cache).spec_capacity(),
{
    if discovered {
        cache.remember(fp);
    }
    discovered
}

/// A new item of a feed, on its way to the sink.
#[derive(Debug, Clone)]
pub struct FeedEvent {
    pub source: String,
    pub item: FeedItem,
}

/// One feed's poller state: its URL, its recent-fingerprint cache and the
/// items discovered in the current cycle, in document order.
pub struct RssFeed {
    source: String,
    cache: RecentCache,
    items: Vec<FeedItem>,
}

impl RssFeed {
    pub closed spec fn spec_source(&self) -> Seq<char> {
        self.source@
    }

    pub closed spec fn recent(&self) -> Seq<Seq<char>> {
        self.cache@
    }

    pub closed spec fn capacity(&self) -> nat {
        self.cache.spec_capacity()
    }

    pub closed spec fn pending(&self) -> Seq<FeedItem> {
        self.items@
    }

    /// The recent cache is well formed.
    pub closed spec fn wf(&self) -> bool {
        self.cache.wf()
    }

    /// A feed at `url` with an empty cache of `max_size` fingerprints.
    pub fn new(url: String, max_size: usize) -> (r: RssFeed)
        ensures
            r.spec_source() == url@,
            r.recent() == Seq::<Seq<char>>::empty(),
            r.capacity() == max_size,
            r.pending() == Seq::<FeedItem>::empty(),
            r.wf(),
    {
        RssFeed { source: url, cache: RecentCache::new(max_size), items: Vec::new() }
    }

    /// The feed's URL.
    pub fn source(&self) -> (r: String)
        ensures
            r@ == self.spec_source(),
    {
        self.source.clone()
    }

    /// Hands out the items discovered so far, leaving none behind.
    pub fn items(&mut self) -> (r: Vec<FeedItem>)
        requires
            old(self).wf(),
        ensures
            final(self).wf(),
            r@ == old(self).pending(),
            final(self).pending() == Seq::<FeedItem>::empty(),
            final(self).recent() == old(self).recent(),
            final(self).capacity() == old(self).capacity(),
            final(self).spec_source() == old(self).spec_source(),
    {
        let mut out: Vec<FeedItem> = Vec::new();
        std::mem::swap(&mut out, &mut self.items);
        out
    }

    /// First look at a fetched item with fingerprint `fp`.
    pub fn check(&self, fp: &str) -> (r: ItemStep)
        ensures
            r == (if self.recent().contains(fp@) {
                ItemStep::Skip
            } else {
                ItemStep::AskLedger
            }),
    {
        on_item(&self.cache, fp)
    }

    /// The ledger said whether it holds `fp`; the result asks to mark it.
    pub fn ledger_answer(&mut self, fp: String, already_seen: bool) -> (mark: bool)
        requires
            old(self).wf(),
        ensures
            final(self).wf(),
            mark == !already_seen,
            final(self).recent() == (if already_seen {
                remember_spec(old(self).recent(), old(self).capacity(), fp@)
            } else {
                old(self).recent()
            }),
            final(self).pending() == old(self).pending(),
            final(self).capacity() == old(self).capacity(),
            final(self).spec_source() == old(self).spec_source(),
    {
        on_ledger_answer(&mut self.cache, fp, already_seen)
    }

    /// Marking `item` seen under `fp` returned `discovered`: a discovered
    /// item is remembered and queued for emission after those before it.
    pub fn marked(&mut self, item: FeedItem, fp: String, discovered: bool) -> (emit: bool)
        requires
            old(self).wf(),
        ensures
            final(self).wf(),
            emit == discovered,
            final(self).recent() == (if discovered {
                remember_spec(old(self).recent(), old(self).capacity(), fp@)
            } else {
                old(self).recent()
            }),
            final(self).pending() == (if discovered {
                old(self).pending().push(item)
            } else {
                old(self).pending()
            }),
            final(self).capacity() == old(self).capacity(),
            final(self).spec_source() == old(self).spec_source(),
    {
        let emit = on_marked(&mut self.cache, fp, discovered);
        if emit {
            self.items.push(item);
        }
        emit
    }
}

/// Whether an item is emitted, given whether it was cached, what the ledger
/// said of it and what marking it returned.
pub open spec fn emitted(cached: bool, ledger_seen: bool, discovered: bool) -> bool {
    !cached && !ledger_seen && discovered
}

/// An item whose fingerprint the ledger's seen-set already holds (say, from
/// before a restart) is never emitted: the poller does not mark it, and a
/// store that holds it reports no discovery to any mark either.
pub proof fn lemma_no_emission_of_seen(
    cache: Seq<Seq<char>>,
    seen: Set<Seq<char>>,
    fp: Seq<char>,
)
    requires
        seen.contains(fp),
    ensures
        !seen_insert(seen, fp).1,
        !emitted(cache.contains(fp), seen.contains(fp), seen_insert(seen, fp).1),
{
}

/// One refresh cycle over the fingerprints of a fetched document, in
/// order, as `RssFeed::check`, `ledger_answer` and `marked` decide it, against
/// a ledger whose seen-set answers as `seen_insert` says: the recent cache
/// after the cycle, the seen-set after it, and the fingerprints emitted.
pub open spec fn cycle_spec(
    recent: Seq<Seq<char>>,
    capacity: nat,
    seen: Set<Seq<char>>,
    fps: Seq<Seq<char>>,
) -> (Seq<Seq<char>>, Set<Seq<char>>, Seq<Seq<char>>)
    decreases fps.len(),
{
    if fps.len() == 0 {
        (recent, seen, Seq::empty())
    } else {
        let prev = cycle_spec(recent, capacity, seen, fps.drop_last());
        let fp = fps.last();
        if prev.0.contains(fp) {
            prev
        } else if prev.1.contains(fp) {
            (remember_spec(prev.0, capacity, fp), prev.1, prev.2)
        } else {
            let ins = seen_insert(prev.1, fp);
            if ins.1 {
                (remember_spec(prev.0, capacity, fp), ins.0, prev.2.push(fp))
            } else {
                (prev.0, ins.0, prev.2)
            }
        }
    }
}

proof fn lemma_cycle_keeps_seen(
    recent: Seq<Seq<char>>,
    capacity: nat,
    seen: Set<Seq<char>>,
    fps: Seq<Seq<char>>,
)
    ensures
        seen.subset_of(cycle_spec(recent, capacity, seen, fps).1),
        forall|k: int|
            0 <= k < cycle_spec(recent, capacity, seen, fps).2.len() ==> !seen.contains(
                #[trigger] cycle_spec(recent, capacity, seen, fps).2[k],
            ),
    decreases fps.len(),
{
    if fps.len() > 0 {
        lemma_cycle_keeps_seen(recent, capacity, seen, fps.drop_last());
        let prev = cycle_spec(recent, capacity, seen, fps.drop_last());
        let cur = cycle_spec(recent, capacity, seen, fps);
        assert forall|k: int| 0 <= k < cur.2.len() implies !seen.contains(#[trigger] cur.2[k]) by {
            if k < prev.2.len() {
                assert(cur.2[k] == prev.2[k]);
            }
        }
    }
}

/// No duplicate emission across a restart: a fingerprint that the ledger's
/// seen-set holds when the poller starts (its recent cache empty) is never
/// emitted in a cycle, even when the fetched document still lists it.
pub proof fn lemma_no_emission_after_restart(
    capacity: nat,
    seen: Set<Seq<char>>,
    fps: Seq<Seq<char>>,
    fp: Seq<char>,
)
    requires
        seen.contains(fp),
    ensures
        !cycle_spec(Seq::empty(), capacity, seen, fps).2.contains(fp),
{
    lemma_cycle_keeps_seen(Seq::empty(), capacity, seen, fps);
}

pub open spec fn or_text(o: Option<String>, default: Seq<char>) -> Seq<char> {
    match o {
        Some(s) => s@,
        None => default,
    }
}

fn text_or(o: &Option<String>, default: &str) -> (r: String)
    ensures
        r@ == or_text(*o, default@),
{
    match o {
        Some(s) => s.clone(),
        None => default.to_owned(),
    }
}

impl FeedEvent {
    /// Title, description and link for a notification, with a placeholder
    /// for each that the item lacks.
    pub fn summary(&self) -> (r: (String, String, String))
        ensures
            r.0@ == or_text(self.item.title, "<title not specified>"@),
            r.1@ == or_text(self.item.description, "<description not specified>"@),
            r.2@ == or_text(self.item.link, "<link not specified>"@),
    {
        (
            text_or(&self.item.title, "<title not specified>"),
            text_or(&self.item.description, "<description not specified>"),
            text_or(&self.item.link, "<link not specified>"),
        )
    }
}

/// Milliseconds to sleep after a refresh cycle: the failure back-off after
/// a failed fetch; otherwise what remains of the normal interval, or
/// nothing when the cycle took longer.
pub open spec fn sleep_spec(fetch_ok: bool, elapsed_ms: u64, normal_ms: u64, fail_ms: u64) -> u64 {
    if !fetch_ok {
        fail_ms
    } else if elapsed_ms < normal_ms {
        (normal_ms - elapsed_ms) as u64
    } else {
        0
    }
}

pub fn sleep_after_cycle(fetch_ok: bool, elapsed_ms: u64, normal_ms: u64, fail_ms: u64) -> (r: u64)
    ensures
        r == sleep_spec(fetch_ok, elapsed_ms, normal_ms, fail_ms),
{
    if !fetch_ok {
        fail_ms
    } else if elapsed_ms < normal_ms {
        normal_ms - elapsed_ms
    } else {
        0
    }
}

/// After a failed fetch the poller waits the whole failure back-off, however
/// short its normal interval and however long the cycle took.
pub proof fn lemma_backoff_on_failure(elapsed_ms: u64, normal_ms: u64, fail_ms: u64)
    ensures
        sleep_spec(false, elapsed_ms, normal_ms, fail_ms) == fail_ms,
        elapsed_ms + sleep_spec(false, elapsed_ms, normal_ms, fail_ms) >= fail_ms,
{
}

} // verus!
