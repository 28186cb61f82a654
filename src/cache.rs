//! A feed's bounded memory of recently seen fingerprints.
use std::collections::VecDeque;
use vstd::prelude::*;

verus! {

/// The cache after `id` is remembered: an id already held changes nothing;
/// otherwise, when full, the oldest id leaves before `id` joins at the back.
pub open spec fn remember_spec(order: Seq<Seq<char>>, capacity: nat, id: Seq<char>) -> Seq<
    Seq<char>,
> {
    if order.contains(id) {
        order
    } else if order.len() >= capacity && order.len() > 0 {
        order.drop_first().push(id)
    } else {
        order.push(id)
    }
}

/// The cache after each of `ids` is remembered in turn.
pub open spec fn remember_all(order: Seq<Seq<char>>, capacity: nat, ids: Seq<Seq<char>>) -> Seq<
    Seq<char>,
>
    decreases ids.len(),
{
    if ids.len() == 0 {
        order
    } else {
        remember_spec(remember_all(order, capacity, ids.drop_last()), capacity, ids.last())
    }
}

proof fn lemma_fill_below_capacity(capacity: nat, ids: Seq<Seq<char>>, j: nat)
    requires
        j <= capacity,
        j <= ids.len(),
        forall|a: int, b: int| 0 <= a < b < ids.len() ==> ids[a] != ids[b],
    ensures
        remember_all(Seq::empty(), capacity, ids.take(j as int)) == ids.take(j as int),
    decreases j,
{
    if j > 0 {
        let prefix = ids.take(j as int);
        assert(prefix.drop_last() =~= ids.take(j - 1));
        lemma_fill_below_capacity(capacity, ids, (j - 1) as nat);
        assert(!ids.take(j - 1).contains(ids[j - 1]));
        assert(ids.take(j - 1).push(ids[j - 1]) =~= prefix);
    } else {
        assert(ids.take(0) =~= Seq::<Seq<char>>::empty());
    }
}

/// With room for `capacity` fingerprints, remembering `capacity + 1`
/// distinct fingerprints in turn forgets the first of them and keeps all
/// the others.
pub proof fn lemma_fifo_eviction(capacity: nat, ids: Seq<Seq<char>>)
    requires
        capacity >= 1,
        ids.len() == capacity + 1,
        forall|a: int, b: int| 0 <= a < b < ids.len() ==> ids[a] != ids[b],
    ensures
        !remember_all(Seq::empty(), capacity, ids).contains(ids[0]),
        forall|i: int|
            1 <= i <= capacity ==> #[trigger] remember_all(Seq::empty(), capacity, ids).contains(
                ids[i],
            ),
{
    lemma_fill_below_capacity(capacity, ids, capacity);
    let before = ids.take(capacity as int);
    assert(ids.drop_last() =~= before);
    assert(!before.contains(ids[capacity as int]));
    let after = remember_all(Seq::empty(), capacity, ids);
    assert(after =~= ids.subrange(1, capacity + 1 as int));
    assert forall|i: int| 1 <= i <= capacity implies #[trigger] after.contains(ids[i]) by {
        assert(after[i - 1] == ids[i]);
    }
}

/// Recently seen fingerprints, oldest first, evicted in insertion order.
pub struct RecentCache {
    order: VecDeque<String>,
    capacity: usize,
}

impl View for RecentCache {
    type V = Seq<Seq<char>>;

    closed spec fn view(&self) -> Seq<Seq<char>> {
        self.order@.map_values(|s: String| s@)
    }
}

/// No fingerprint occurs twice, and there are at most `capacity` of them
/// (one, when the capacity is zero).
pub open spec fn cache_wf(order: Seq<Seq<char>>, capacity: nat) -> bool {
    &&& forall|i: int, j: int| 0 <= i < j < order.len() ==> order[i] != order[j]
    &&& order.len() <= if capacity == 0 {
        1
    } else {
        capacity
    }
}

/// Remembering a fingerprint keeps the cache well formed.
pub proof fn lemma_remember_wf(order: Seq<Seq<char>>, capacity: nat, id: Seq<char>)
    requires
        cache_wf(order, capacity),
    ensures
        cache_wf(remember_spec(order, capacity, id), capacity),
{
    if !order.contains(id) {
        let base = if order.len() >= capacity && order.len() > 0 {
            order.drop_first()
        } else {
            order
        };
        assert forall|k: int| 0 <= k < base.len() implies base[k] != id by {
            if order.len() >= capacity && order.len() > 0 {
                assert(base[k] == order[k + 1]);
            }
        }
        let r = base.push(id);
        assert forall|i: int, j: int| 0 <= i < j < r.len() implies r[i] != r[j] by {
            if j < base.len() && order.len() >= capacity && order.len() > 0 {
                assert(base[i] == order[i + 1]);
                assert(base[j] == order[j + 1]);
            }
        }
    }
}

impl RecentCache {
    pub closed spec fn spec_capacity(&self) -> nat {
        self.capacity as nat
    }

    pub open spec fn wf(&self) -> bool {
        cache_wf(self@, self.spec_capacity())
    }

    /// An empty cache that holds at most `capacity` fingerprints.
    pub fn new(capacity: usize) -> (r: RecentCache)
        ensures
            r@ == Seq::<Seq<char>>::empty(),
            r.spec_capacity() == capacity,
            r.wf(),
    {
        let r = RecentCache { order: VecDeque::new(), capacity };
        assert(r@ =~= Seq::<Seq<char>>::empty());
        r
    }

    pub fn capacity(&self) -> (r: usize)
        ensures
            r == self.spec_capacity(),
    {
        self.capacity
    }

    pub fn len(&self) -> (r: usize)
        ensures
            r == self@.len(),
    {
        self.order.len()
    }

    /// Whether `id` was seen recently.
    pub fn contains(&self, id: &str) -> (r: bool)
        ensures
            r == self@.contains(id@),
    {
        let key: String = id.to_owned();
        let n = self.order.len();
        let mut i: usize = 0;
        while i < n
            invariant
                n == self.order@.len(),
                key@ == id@,
                i <= n,
                forall|j: int| 0 <= j < i ==> self@[j] != id@,
            decreases n - i,
        {
            assert(self@[i as int] == self.order@[i as int]@);
            if self.order[i] == key {
                assert(self@[i as int] == id@);
                return true;
            }
            i = i + 1;
        }
        assert(!self@.contains(id@));
        false
    }

    /// Records `id` as seen.
    pub fn remember(&mut self, id: String)
        requires
            old(self).wf(),
        ensures
            final(self).wf(),
            final(self)@ == remember_spec(old(self)@, old(self).spec_capacity(), id@),
            final(self).spec_capacity() == old(self).spec_capacity(),
    {
        if self.contains(id.as_str()) {
            return;
        }
        if self.order.len() >= self.capacity {
            let _ = self.order.pop_front();
        }
        self.order.push_back(id);
        assert(self@ =~= remember_spec(old(self)@, old(self).spec_capacity(), id@));
        proof {
            lemma_remember_wf(old(self)@, old(self).spec_capacity(), id@);
        }
    }
}

} // verus!
