//! Time-ordered buffer of received snapshots.
//!
//! Snapshots arrive over an unordered, lossy channel.  `insert` places each
//! arrival by binary search so the buffer is non-decreasing in time at all
//! times, whatever the arrival order; `evict_before` discards a prefix the
//! playout scheduler has decided can never be needed again.  No entry is
//! mutated after insertion.

use vstd::prelude::*;
use std::collections::VecDeque;
use crate::physics::PhysicsSnapshot;

verus! {

/// The sequence of capture times of a sequence of snapshots.
pub open spec fn times_of(s: Seq<PhysicsSnapshot>) -> Seq<u64> {
    s.map_values(|snap: PhysicsSnapshot| snap.time)
}

/// Capture times in non-decreasing order, stated over arbitrary index pairs
/// so binary search can step across the sequence.
pub open spec fn time_sorted(s: Seq<PhysicsSnapshot>) -> bool {
    forall|i: int, j: int| 0 <= i <= j < s.len() ==> s[i].time <= s[j].time
}

/// Non-decreasing order of a bare time sequence.
pub open spec fn nondecreasing(ts: Seq<u64>) -> bool {
    forall|i: int, j: int| 0 <= i <= j < ts.len() ==> ts[i] <= ts[j]
}

/// `index` is where a snapshot with time `time` belongs in `s`: everything
/// before it is strictly earlier, and the entry at it (if any) is at or after
/// `time`.  For any `s` at most one index qualifies
/// ([`lemma_search_index_unique`]).
pub open spec fn is_search_index(s: Seq<PhysicsSnapshot>, time: u64, index: int) -> bool {
    &&& 0 <= index <= s.len()
    &&& forall|j: int| 0 <= j < index ==> s[j].time < time
    &&& index < s.len() ==> s[index].time >= time
}

/// Ordered list of physics snapshots sent from the origin.
pub struct PhysicsSnapshots {
    pub snapshots: VecDeque<PhysicsSnapshot>,
}

impl PhysicsSnapshots {
    /// The buffer's standing invariant: non-decreasing capture times.
    pub open spec fn wf(&self) -> bool {
        time_sorted(self.snapshots@)
    }

    pub fn new() -> (r: Self)
        ensures
            r.snapshots@ == Seq::<PhysicsSnapshot>::empty(),
            r.wf(),
    {
        PhysicsSnapshots { snapshots: VecDeque::new() }
    }

    /// Binary searches for the index of a specific time.
    ///
    /// If there is an exact match returns the first such index, otherwise the
    /// index of the first entry with a strictly greater time (the length if
    /// every entry is earlier).
    pub fn search(&self, time: u64) -> (index: usize)
        requires
            self.wf(),
        ensures
            is_search_index(self.snapshots@, time, index as int),
    {
        let mut lo: usize = 0;
        let mut hi: usize = self.snapshots.len();
        while lo < hi
            invariant
                self.wf(),
                lo <= hi <= self.snapshots@.len(),
                forall|j: int| 0 <= j < lo ==> self.snapshots@[j].time < time,
                forall|j: int| hi <= j < self.snapshots@.len() ==> self.snapshots@[j].time >= time,
            decreases hi - lo,
        {
            let mid = lo + (hi - lo) / 2;
            if self.snapshots[mid].time < time {
                lo = mid + 1;
            } else {
                hi = mid;
            }
        }
        lo
    }

    /// Accepts one snapshot, however late or early it arrives, keeping the
    /// buffer sorted: it goes to its [`search`] position, and an existing
    /// entry with equal time is kept, not overwritten.
    pub fn insert(&mut self, snapshot: PhysicsSnapshot)
        requires
            old(self).wf(),
        ensures
            final(self).wf(),
            final(self).snapshots@.len() == old(self).snapshots@.len() + 1,
            exists|i: int|
                #[trigger] is_search_index(old(self).snapshots@, snapshot.time, i)
                && final(self).snapshots@ == old(self).snapshots@.insert(i, snapshot),
            final(self).snapshots@.to_multiset()
                == old(self).snapshots@.to_multiset().insert(snapshot),
    {
        let index = self.search(snapshot.time);
        let ghost prior = self.snapshots@;
        self.snapshots.insert(index, snapshot);
        proof {
            assert(is_search_index(prior, snapshot.time, index as int)
                && self.snapshots@ == prior.insert(index as int, snapshot));
            lemma_insert_preserves_sorted(prior, index as int, snapshot);
            lemma_insert_to_multiset(prior, index as int, snapshot);
        }
    }

    /// Drains one tick's worth of snapshot arrivals into the buffer, in the
    /// order the transport delivered them.  Afterwards the buffer holds
    /// exactly its old contents plus the batch — nothing lost, nothing
    /// duplicated — and is still sorted; with
    /// [`lemma_sorted_times_unique`], any two delivery orders of the same
    /// snapshots leave the buffer with the same time sequence.
    pub fn receive_physics_snapshots(&mut self, arrivals: Vec<PhysicsSnapshot>)
        requires
            old(self).wf(),
        ensures
            final(self).wf(),
            final(self).snapshots@.len() == old(self).snapshots@.len() + arrivals@.len(),
            final(self).snapshots@.to_multiset() == old(self).snapshots@.to_multiset().add(
                arrivals@.to_multiset(),
            ),
    {
        broadcast use vstd::seq_lib::group_to_multiset_ensures;

        let ghost all = arrivals@;
        let n = arrivals.len();
        let mut arrivals = arrivals;
        let mut k: usize = 0;
        proof {
            assert(all.take(0) =~= Seq::<PhysicsSnapshot>::empty());
            assert(old(self).snapshots@.to_multiset().add(all.take(0).to_multiset())
                =~= old(self).snapshots@.to_multiset());
            assert(arrivals@ =~= all.skip(0));
        }
        while k < n
            invariant
                n == all.len(),
                0 <= k <= n,
                arrivals@ == all.skip(k as int),
                self.wf(),
                self.snapshots@.len() == old(self).snapshots@.len() + k,
                self.snapshots@.to_multiset() == old(self).snapshots@.to_multiset().add(
                    all.take(k as int).to_multiset(),
                ),
            decreases n - k,
        {
            let snapshot = arrivals.remove(0);
            proof {
                assert(snapshot == all[k as int]);
                assert(arrivals@ =~= all.skip(k + 1));
            }
            self.insert(snapshot);
            proof {
                broadcast use vstd::seq_lib::group_to_multiset_ensures;

                let taken = all.take(k as int);
                assert(all.take(k + 1) =~= taken.push(snapshot));
                assert(taken.push(snapshot).to_multiset() =~= taken.to_multiset().insert(
                    snapshot,
                ));
                assert(old(self).snapshots@.to_multiset().add(
                    taken.to_multiset().insert(snapshot),
                ) =~= old(self).snapshots@.to_multiset().add(taken.to_multiset()).insert(
                    snapshot,
                ));
            }
            k = k + 1;
        }
        proof {
            assert(all.take(n as int) =~= all);
        }
    }

    /// Removes the `index` oldest entries from the front: the buffer shrinks
    /// by exactly `index` and the remaining entries keep their relative
    /// order.  Evicting nothing changes nothing, and evictions compose
    /// ([`lemma_evictions_compose`]).
    pub fn evict_before(&mut self, index: usize)
        requires
            index <= old(self).snapshots@.len(),
        ensures
            final(self).snapshots@ == old(self).snapshots@.skip(index as int),
            final(self).snapshots@.len() == old(self).snapshots@.len() - index,
            old(self).wf() ==> final(self).wf(),
    {
        let mut k: usize = 0;
        while k < index
            invariant
                k <= index <= old(self).snapshots@.len(),
                self.snapshots@ == old(self).snapshots@.skip(k as int),
            decreases index - k,
        {
            let popped = self.snapshots.pop_front();
            proof {
                assert(self.snapshots@ =~= old(self).snapshots@.skip(k + 1));
            }
            k = k + 1;
        }
        proof {
            assert(self.snapshots@ =~= old(self).snapshots@.skip(index as int));
        }
    }
}

impl Default for PhysicsSnapshots {
    fn default() -> (r: Self)
        ensures
            r.snapshots@ == Seq::<PhysicsSnapshot>::empty(),
            r.wf(),
    {
        PhysicsSnapshots::new()
    }
}

/// Only one index can satisfy [`is_search_index`], so `search`'s contract
/// determines its result: it returns what any correct binary search over the
/// sorted sequence returns.
pub proof fn lemma_search_index_unique(s: Seq<PhysicsSnapshot>, time: u64, i: int, j: int)
    requires
        is_search_index(s, time, i),
        is_search_index(s, time, j),
    ensures
        i == j,
{
    if i < j {
        assert(s[i].time < time);
    }
    if j < i {
        assert(s[j].time < time);
    }
}

/// Inserting at the search position keeps the buffer sorted.
proof fn lemma_insert_preserves_sorted(s: Seq<PhysicsSnapshot>, pos: int, snapshot: PhysicsSnapshot)
    requires
        time_sorted(s),
        is_search_index(s, snapshot.time, pos),
    ensures
        time_sorted(s.insert(pos, snapshot)),
{
    let grown = s.insert(pos, snapshot);
    s.insert_ensures(pos, snapshot);
    assert forall|i: int, j: int| 0 <= i <= j < grown.len()
        implies grown[i].time <= grown[j].time by {
        if i < pos && pos < j {
            assert(grown[i] == s[i]);
            assert(grown[j] == s[j - 1]);
        }
    }
}

/// Insertion adds exactly the new snapshot to the buffer's contents.
proof fn lemma_insert_to_multiset(s: Seq<PhysicsSnapshot>, pos: int, snapshot: PhysicsSnapshot)
    requires
        0 <= pos <= s.len(),
    ensures
        s.insert(pos, snapshot).to_multiset() == s.to_multiset().insert(snapshot),
{
    broadcast use vstd::seq_lib::group_to_multiset_ensures;

    let left = s.take(pos);
    let right = s.skip(pos);
    assert(s.insert(pos, snapshot) =~= left.push(snapshot) + right);
    assert(s =~= left + right);
    vstd::seq_lib::lemma_multiset_commutative(left.push(snapshot), right);
    vstd::seq_lib::lemma_multiset_commutative(left, right);
    assert(left.push(snapshot).to_multiset() =~= left.to_multiset().insert(snapshot));
    assert(left.to_multiset().insert(snapshot).add(right.to_multiset())
        =~= left.to_multiset().add(right.to_multiset()).insert(snapshot));
}

/// A sorted buffer's times are sorted as a bare sequence.
pub proof fn lemma_times_of_sorted(s: Seq<PhysicsSnapshot>)
    requires
        time_sorted(s),
    ensures
        nondecreasing(times_of(s)),
{
    assert forall|i: int, j: int| 0 <= i <= j < times_of(s).len()
        implies times_of(s)[i] <= times_of(s)[j] by {
        assert(s[i].time <= s[j].time);
    }
}

/// Two sorted time sequences holding the same times are the same sequence:
/// together with `insert`'s contract this says the buffer's final times do
/// not depend on the order in which the snapshots arrived.
pub proof fn lemma_sorted_times_unique(a: Seq<u64>, b: Seq<u64>)
    requires
        nondecreasing(a),
        nondecreasing(b),
        a.to_multiset() == b.to_multiset(),
    ensures
        a == b,
    decreases a.len(),
{
    broadcast use vstd::seq_lib::group_to_multiset_ensures;

    if a.len() == 0 {
        assert(a.to_multiset().len() == 0);
        assert(b.len() == 0);
        assert(a =~= b);
    } else {
        assert(a.contains(a[0]));
        assert(b.to_multiset().count(a[0]) > 0);
        assert(b.contains(a[0]));
        let wa = choose|i: int| 0 <= i < b.len() && b[i] == a[0];
        assert(b[0] <= b[wa]);
        assert(b.contains(b[0]));
        assert(a.to_multiset().count(b[0]) > 0);
        assert(a.contains(b[0]));
        let wb = choose|i: int| 0 <= i < a.len() && a[i] == b[0];
        assert(a[0] <= a[wb]);
        assert(a[0] == b[0]);

        let ta = a.drop_first();
        let tb = b.drop_first();
        assert(ta =~= a.remove(0));
        assert(tb =~= b.remove(0));
        assert(ta.to_multiset() == a.to_multiset().remove(a[0]));
        assert(tb.to_multiset() == b.to_multiset().remove(b[0]));
        assert(nondecreasing(ta)) by {
            assert forall|i: int, j: int| 0 <= i <= j < ta.len()
                implies ta[i] <= ta[j] by {
                assert(a[i + 1] <= a[j + 1]);
            }
        }
        assert(nondecreasing(tb)) by {
            assert forall|i: int, j: int| 0 <= i <= j < tb.len()
                implies tb[i] <= tb[j] by {
                assert(b[i + 1] <= b[j + 1]);
            }
        }
        lemma_sorted_times_unique(ta, tb);
        assert(a =~= b) by {
            assert(forall|i: int| 1 <= i < a.len() ==> a[i] == ta[i - 1] && b[i] == tb[i - 1]);
        }
    }
}

/// Evicting `k` entries and then `j` more is one eviction of `k + j`:
/// prefix eviction is monotonic, and evicting an already-evicted boundary
/// again removes nothing.
pub proof fn lemma_evictions_compose(s: Seq<PhysicsSnapshot>, k: int, j: int)
    requires
        0 <= k,
        0 <= j,
        k + j <= s.len(),
    ensures
        s.skip(k).skip(j) == s.skip(k + j),
        s.skip(0) == s,
{
    assert(s.skip(k).skip(j) =~= s.skip(k + j));
    assert(s.skip(0) =~= s);
}

} // verus!
