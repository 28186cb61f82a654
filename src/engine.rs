//! The engine's table of tracked feeds: one cancellation handle per URL.
use vstd::prelude::*;

verus! {

/// The text of each string of a list.
pub open spec fn views(v: Seq<String>) -> Seq<Seq<char>> {
    v.map_values(|s: String| s@)
}

/// The roster after `url` is added: unchanged when it is already there.
pub open spec fn add_spec(urls: Seq<Seq<char>>, url: Seq<char>) -> Seq<Seq<char>> {
    if urls.contains(url) {
        urls
    } else {
        urls.push(url)
    }
}

/// The roster after each of `new` is added in turn.
pub open spec fn add_all_spec(urls: Seq<Seq<char>>, new: Seq<Seq<char>>) -> Seq<Seq<char>>
    decreases new.len(),
{
    if new.len() == 0 {
        urls
    } else {
        add_spec(add_all_spec(urls, new.drop_last()), new.last())
    }
}

/// No URL occurs twice.
pub open spec fn unique(urls: Seq<Seq<char>>) -> bool {
    forall|i: int, j: int| 0 <= i < j < urls.len() ==> urls[i] != urls[j]
}

/// Adding a URL keeps the roster free of repeats, and adding the same URL a
/// second time changes nothing: it stays exactly once in the roster.
pub proof fn lemma_add_idempotent(urls: Seq<Seq<char>>, url: Seq<char>)
    requires
        unique(urls),
    ensures
        unique(add_spec(urls, url)),
        add_spec(add_spec(urls, url), url) == add_spec(urls, url),
        add_spec(urls, url).contains(url),
        forall|i: int, j: int|
            0 <= i < add_spec(urls, url).len() && 0 <= j < add_spec(urls, url).len()
                && add_spec(urls, url)[i] == url && add_spec(urls, url)[j] == url ==> i == j,
{
    if !urls.contains(url) {
        assert(add_spec(urls, url)[urls.len() as int] == url);
    }
}

proof fn lemma_add_all_unique(urls: Seq<Seq<char>>, new: Seq<Seq<char>>)
    requires
        unique(urls),
    ensures
        unique(add_all_spec(urls, new)),
    decreases new.len(),
{
    if new.len() > 0 {
        lemma_add_all_unique(urls, new.drop_last());
        lemma_add_idempotent(add_all_spec(urls, new.drop_last()), new.last());
    }
}

proof fn lemma_add_member(urls: Seq<Seq<char>>, x: Seq<char>, u: Seq<char>)
    ensures
        add_spec(urls, x).contains(u) <==> (urls.contains(u) || x == u),
{
    if !urls.contains(x) {
        assert(urls.push(x)[urls.len() as int] == x);
        if urls.push(x).contains(u) && x != u {
            let k = choose|k: int| 0 <= k < urls.push(x).len() && urls.push(x)[k] == u;
            assert(urls[k] == u);
        }
        if urls.contains(u) {
            let k = choose|k: int| 0 <= k < urls.len() && urls[k] == u;
            assert(urls.push(x)[k] == u);
        }
    }
}

proof fn lemma_last_member(s: Seq<Seq<char>>, u: Seq<char>)
    requires
        s.len() > 0,
    ensures
        s.contains(u) <==> (s.drop_last().contains(u) || s.last() == u),
{
    if s.contains(u) && s.last() != u {
        let k = choose|k: int| 0 <= k < s.len() && s[k] == u;
        assert(s.drop_last()[k] == u);
    }
    if s.drop_last().contains(u) {
        let k = choose|k: int| 0 <= k < s.drop_last().len() && s.drop_last()[k] == u;
        assert(s[k] == u);
    }
    if s.last() == u {
        assert(s[s.len() - 1] == u);
    }
}

proof fn lemma_add_all_members(urls: Seq<Seq<char>>, new: Seq<Seq<char>>, u: Seq<char>)
    ensures
        add_all_spec(urls, new).contains(u) <==> (urls.contains(u) || new.contains(u)),
    decreases new.len(),
{
    if new.len() > 0 {
        lemma_add_all_members(urls, new.drop_last(), u);
        lemma_add_member(add_all_spec(urls, new.drop_last()), new.last(), u);
        lemma_last_member(new, u);
    } else {
        assert(!new.contains(u));
    }
}

/// The feeds that the engine tracks, in the order they were added, each
/// with the handle that cancels its poller.
pub struct FeedTable<H> {
    entries: Vec<(String, H)>,
}

impl<H> FeedTable<H> {
    /// The tracked URLs, oldest first.
    pub closed spec fn urls(&self) -> Seq<Seq<char>> {
        self.entries@.map_values(|e: (String, H)| e.0@)
    }

    /// No URL is tracked twice.
    pub open spec fn wf(&self) -> bool {
        unique(self.urls())
    }

    pub fn new() -> (r: FeedTable<H>)
        ensures
            r.wf(),
            r.urls() == Seq::<Seq<char>>::empty(),
    {
        let r = FeedTable { entries: Vec::new() };
        assert(r.urls() =~= Seq::<Seq<char>>::empty());
        r
    }

    /// The number of tracked feeds.
    pub fn len(&self) -> (r: usize)
        ensures
            r == self.urls().len(),
    {
        self.entries.len()
    }

    fn find(&self, url: &str) -> (r: Option<usize>)
        ensures
            r matches Some(i) ==> i < self.urls().len() && self.urls()[i as int] == url@,
            r is None ==> !self.urls().contains(url@),
    {
        let key: String = url.to_owned();
        let mut i: usize = 0;
        while i < self.entries.len()
            invariant
                i <= self.entries@.len(),
                key@ == url@,
                forall|j: int| 0 <= j < i ==> self.urls()[j] != url@,
            decreases self.entries@.len() - i,
        {
            assert(self.urls()[i as int] == self.entries@[i as int].0@);
            if self.entries[i].0 == key {
                return Some(i);
            }
            i = i + 1;
        }
        None
    }

    /// Whether `url` is tracked.
    pub fn contains(&self, url: &str) -> (r: bool)
        ensures
            r == self.urls().contains(url@),
    {
        match self.find(url) {
            Some(_) => true,
            None => false,
        }
    }

    /// Tracks `url` with the poller handle `handle`. A URL already tracked
    /// keeps its poller: the table is unchanged and `handle` is handed back
    /// so that the caller can cancel the poller it belongs to.
    pub fn insert(&mut self, url: String, handle: H) -> (r: Option<H>)
        requires
            old(self).wf(),
        ensures
            final(self).wf(),
            final(self).urls() == add_spec(old(self).urls(), url@),
            r is Some <==> old(self).urls().contains(url@),
            r matches Some(h) ==> h == handle,
    {
        match self.find(url.as_str()) {
            Some(_) => Some(handle),
            None => {
                proof {
                    lemma_add_idempotent(self.urls(), url@);
                }
                self.entries.push((url, handle));
                assert(self.urls() =~= add_spec(old(self).urls(), url@));
                None
            },
        }
    }

    /// Stops tracking `url`, handing back its poller handle; `None` when the
    /// URL was not tracked, which is no error.
    pub fn remove(&mut self, url: &str) -> (r: Option<H>)
        requires
            old(self).wf(),
        ensures
            final(self).wf(),
            !final(self).urls().contains(url@),
            r is None ==> final(self).urls() == old(self).urls() && !old(self).urls().contains(
                url@,
            ),
            r is Some ==> exists|i: int|
                0 <= i < old(self).urls().len() && old(self).urls()[i] == url@
                    && final(self).urls() == old(self).urls().remove(i),
    {
        match self.find(url) {
            Some(i) => {
                let entry = self.entries.remove(i);
                let ghost old_urls = old(self).urls();
                assert(self.urls() =~= old_urls.remove(i as int));
                assert forall|a: int, b: int| 0 <= a < b < self.urls().len() implies self.urls()[a]
                    != self.urls()[b] by {
                    let a2 = if a < i { a } else { a + 1 };
                    let b2 = if b < i { b } else { b + 1 };
                    assert(self.urls()[a] == old_urls[a2]);
                    assert(self.urls()[b] == old_urls[b2]);
                }
                proof {
                    if self.urls().contains(url@) {
                        let k = choose|k: int| 0 <= k < self.urls().len() && self.urls()[k] == url@;
                        let k2 = if k < i { k } else { k + 1 };
                        assert(old_urls[k2] == url@);
                    }
                }
                Some(entry.1)
            },
            None => None,
        }
    }

    /// The tracked URLs, oldest first.
    pub fn list(&self) -> (r: Vec<String>)
        ensures
            views(r@) == self.urls(),
    {
        let mut out: Vec<String> = Vec::new();
        let mut i: usize = 0;
        while i < self.entries.len()
            invariant
                i <= self.entries@.len(),
                views(out@) == self.urls().take(i as int),
            decreases self.entries@.len() - i,
        {
            assert(self.urls()[i as int] == self.entries@[i as int].0@);
            let entry = &self.entries[i];
            let u: String = entry.0.clone();
            assert(u@ == self.urls()[i as int]);
            let ghost before = out@;
            out.push(u);
            assert(out@ == before.push(u));
            assert(views(out@) =~= views(before).push(u@));
            assert(views(out@) =~= self.urls().take(i + 1));
            i = i + 1;
        }
        assert(self.urls().take(i as int) =~= self.urls());
        out
    }
}

/// The feeds to start with: the stored roster followed by the configured
/// URLs, each URL once, in order of first occurrence.
pub fn merge_feed_lists(roster: &Vec<String>, configured: &Vec<String>) -> (r: Vec<String>)
    ensures
        views(r@) == add_all_spec(
            Seq::empty(),
            views(roster@) + views(configured@),
        ),
        unique(views(r@)),
        forall|u: Seq<char>|
            #[trigger] views(r@).contains(u) <==> (views(roster@).contains(u) || views(configured@).contains(u)),
{
    let ghost rs = views(roster@);
    let ghost cs = views(configured@);
    let ghost all = rs + cs;
    let mut table: FeedTable<()> = FeedTable::new();
    let mut i: usize = 0;
    assert(rs.take(0) =~= Seq::<Seq<char>>::empty());
    while i < roster.len()
        invariant
            rs == views(roster@),
            i <= rs.len(),
            table.wf(),
            table.urls() == add_all_spec(Seq::empty(), rs.take(i as int)),
        decreases rs.len() - i,
    {
        let url = roster[i].clone();
        assert(url@ == rs[i as int]);
        assert(rs.take(i + 1).drop_last() =~= rs.take(i as int));
        let _ = table.insert(url, ());
        i = i + 1;
    }
    assert(rs.take(i as int) =~= rs + cs.take(0));
    let mut j: usize = 0;
    while j < configured.len()
        invariant
            cs == views(configured@),
            j <= cs.len(),
            table.wf(),
            table.urls() == add_all_spec(Seq::empty(), rs + cs.take(j as int)),
        decreases cs.len() - j,
    {
        let url = configured[j].clone();
        assert(url@ == cs[j as int]);
        assert((rs + cs.take(j + 1)).drop_last() =~= rs + cs.take(j as int));
        let _ = table.insert(url, ());
        j = j + 1;
    }
    assert(rs + cs.take(j as int) =~= all);
    proof {
        lemma_add_all_unique(Seq::empty(), all);
        assert forall|u: Seq<char>|
            #[trigger] table.urls().contains(u) <==> (views(roster@).contains(u)
                || views(configured@).contains(u)) by {
            lemma_add_all_members(Seq::empty(), all, u);
            if all.contains(u) {
                let k = choose|k: int| 0 <= k < all.len() && all[k] == u;
                if k < rs.len() {
                    assert(rs[k] == u);
                } else {
                    assert(cs[k - rs.len()] == u);
                }
            }
            if rs.contains(u) {
                let k = choose|k: int| 0 <= k < rs.len() && rs[k] == u;
                assert(all[k] == u);
            }
            if cs.contains(u) {
                let k = choose|k: int| 0 <= k < cs.len() && cs[k] == u;
                assert(all[rs.len() + k] == u);
            }
        }
    }
    table.list()
}

/// The feeds that resolved, in order.
pub open spec fn resolved_ok<T>(results: Seq<(String, Option<T>)>) -> Seq<T>
    decreases results.len(),
{
    if results.len() == 0 {
        Seq::empty()
    } else {
        let prev = resolved_ok(results.drop_last());
        match results.last().1 {
            Some(f) => prev.push(f),
            None => prev,
        }
    }
}

/// The URLs that did not resolve, in order.
pub open spec fn resolved_failed<T>(results: Seq<(String, Option<T>)>) -> Seq<Seq<char>>
    decreases results.len(),
{
    if results.len() == 0 {
        Seq::empty()
    } else {
        let prev = resolved_failed(results.drop_last());
        match results.last().1 {
            Some(_) => prev,
            None => prev.push(results.last().0@),
        }
    }
}

/// Splits the outcome of a first fetch of each URL into the feeds to track
/// and the URLs that failed, which are reported and not tracked.
pub fn partition_resolved<T>(results: Vec<(String, Option<T>)>) -> (r: (Vec<T>, Vec<String>))
    ensures
        r.0@ == resolved_ok(results@),
        views(r.1@) == resolved_failed(results@),
{
    let ghost orig = results@;
    let mut rest = results;
    let mut ok: Vec<T> = Vec::new();
    let mut failed: Vec<String> = Vec::new();
    let mut k: usize = 0;
    let n = rest.len();
    assert(orig.take(0) =~= Seq::<(String, Option<T>)>::empty());
    while k < n
        invariant
            n == orig.len(),
            k <= n,
            rest@ == orig.skip(k as int),
            ok@ == resolved_ok(orig.take(k as int)),
            views(failed@) == resolved_failed(orig.take(k as int)),
        decreases n - k,
    {
        assert(rest@[0] == orig[k as int]);
        assert(orig.take(k + 1).drop_last() =~= orig.take(k as int));
        let ghost before = failed@;
        let (url, res) = rest.remove(0);
        match res {
            Some(f) => {
                ok.push(f);
            },
            None => {
                failed.push(url);
                assert(views(failed@) =~= views(before).push(orig[k as int].0@));
            },
        }
        assert(rest@ =~= orig.skip(k + 1));
        k = k + 1;
    }
    assert(orig.take(k as int) =~= orig);
    (ok, failed)
}

} // verus!
