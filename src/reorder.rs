use std::collections::BTreeMap;
use vstd::prelude::*;

verus! {

/// What a reorder buffer holds, as a mathematical value.
pub struct ReorderState<T> {
    /// The sequence number that must be released next.
    pub next: u64,
    /// The items received and not yet released, by sequence number.
    pub pending: Map<u64, T>,
}

/// Whether some pending item carries a sequence number that was already released.
/// Such an item is the smallest key of the buffer and never equals `next`, so from
/// then on nothing is released.
pub open spec fn has_stale<T>(pending: Map<u64, T>, next: u64) -> bool {
    exists|k: u64| pending.contains_key(k) && k < next
}

/// The items that can be released from `next` on: the longest run of consecutive
/// sequence numbers present in `pending`, in increasing order.
pub open spec fn ready_run<T>(pending: Map<u64, T>, next: u64) -> Seq<(u64, T)>
    decreases u64::MAX - next,
{
    if next < u64::MAX && pending.contains_key(next) {
        seq![(next, pending[next])] + ready_run(pending, (next + 1) as u64)
    } else {
        Seq::empty()
    }
}

/// The sequence numbers `from <= k < to`.
pub open spec fn seq_range(from: int, to: int) -> Set<u64> {
    Set::new(|k: u64| from <= k < to)
}

/// One arrival at the buffer: the item is stored under its sequence number, then the
/// ready run from `next` is released, unless the buffer holds a stale item.
pub open spec fn reorder_step<T>(s: ReorderState<T>, seq: u64, item: T) -> (
    ReorderState<T>,
    Seq<(u64, T)>,
) {
    let p = s.pending.insert(seq, item);
    if has_stale(p, s.next) {
        (ReorderState { next: s.next, pending: p }, Seq::empty())
    } else {
        let out = ready_run(p, s.next);
        (
            ReorderState {
                next: (s.next + out.len()) as u64,
                pending: p.remove_keys(seq_range(s.next as int, s.next + out.len())),
            },
            out,
        )
    }
}

/// The consumer's reorder buffer: items arrive in any order, tagged with their
/// sequence number, and leave in strictly increasing sequence order without gaps.
pub struct ReorderBuffer<T> {
    next_seq: u64,
    pending: BTreeMap<u64, T>,
    stalled: bool,
}

impl<T> View for ReorderBuffer<T> {
    type V = ReorderState<T>;

    closed spec fn view(&self) -> ReorderState<T> {
        ReorderState { next: self.next_seq, pending: self.pending@ }
    }
}

/// Removing a key below `next` does not change the ready run from `next`.
proof fn lemma_ready_run_remove_below<T>(p: Map<u64, T>, k: u64, next: u64)
    requires
        k < next,
    ensures
        ready_run(p.remove(k), next) == ready_run(p, next),
    decreases u64::MAX - next,
{
    if next < u64::MAX && p.contains_key(next) {
        lemma_ready_run_remove_below(p, k, (next + 1) as u64);
    }
}

/// Every item of the ready run from `next` is pending, and its sequence number is
/// `next` plus its position.
pub proof fn lemma_ready_run_contiguous<T>(p: Map<u64, T>, next: u64)
    ensures
        next + ready_run(p, next).len() <= u64::MAX,
        forall|i: int|
            0 <= i < ready_run(p, next).len() ==> {
                &&& (#[trigger] ready_run(p, next)[i]).0 == next + i
                &&& p.contains_key((next + i) as u64)
                &&& ready_run(p, next)[i].1 == p[(next + i) as u64]
            },
        next + ready_run(p, next).len() < u64::MAX ==> !p.contains_key(
            (next + ready_run(p, next).len()) as u64,
        ),
    decreases u64::MAX - next,
{
    if next < u64::MAX && p.contains_key(next) {
        let n1 = (next + 1) as u64;
        lemma_ready_run_contiguous(p, n1);
        let r = ready_run(p, next);
        assert forall|i: int| 0 <= i < r.len() implies {
            &&& (#[trigger] r[i]).0 == next + i
            &&& p.contains_key((next + i) as u64)
            &&& r[i].1 == p[(next + i) as u64]
        } by {
            if i > 0 {
                assert(r[i] == ready_run(p, n1)[i - 1]);
            }
        }
    }
}

impl<T> ReorderBuffer<T> {
    /// The buffer's invariant: the stall flag records a stale item, and no pending
    /// sequence number is the largest `u64`.
    pub closed spec fn wf(&self) -> bool {
        &&& self.stalled == has_stale(self.pending@, self.next_seq)
        &&& forall|k: u64| self.pending@.contains_key(k) ==> k < u64::MAX
    }

    /// An empty buffer that releases sequence number 0 first.
    pub fn new() -> (r: Self)
        ensures
            r.wf(),
            r@.next == 0,
            r@.pending == Map::<u64, T>::empty(),
    {
        ReorderBuffer { next_seq: 0, pending: BTreeMap::new(), stalled: false }
    }

    /// The sequence number that will be released next.
    pub fn next_seq(&self) -> (r: u64)
        ensures
            r == self@.next,
    {
        self.next_seq
    }

    /// The number of items waiting for an earlier one.
    pub fn pending_len(&self) -> (r: usize)
        ensures
            r == self@.pending.len(),
    {
        self.pending.len()
    }

    /// Stores `item` under `seq` and returns, in order, the items that are now ready.
    pub fn push(&mut self, seq: u64, item: T) -> (released: Vec<(u64, T)>)
        requires
            old(self).wf(),
            seq < u64::MAX,
        ensures
            final(self).wf(),
            (final(self)@, released@) == reorder_step(old(self)@, seq, item),
    {
        let ghost s0 = self@;
        self.pending.insert(seq, item);
        let ghost p = self.pending@;
        assert(p == s0.pending.insert(seq, item));
        if seq < self.next_seq {
            self.stalled = true;
            assert(p.contains_key(seq));
        }
        proof {
            if has_stale(p, s0.next) && seq >= s0.next {
                let k = choose|k: u64| p.contains_key(k) && k < s0.next;
                assert(s0.pending.contains_key(k));
            }
            if has_stale(s0.pending, s0.next) {
                let k = choose|k: u64| s0.pending.contains_key(k) && k < s0.next;
                assert(p.contains_key(k));
            }
        }
        assert(self.stalled == has_stale(p, s0.next));
        let mut out: Vec<(u64, T)> = Vec::new();
        if self.stalled {
            return out;
        }
        let ghost next0 = self.next_seq;
        while self.pending.contains_key(&self.next_seq)
            invariant
                !self.stalled,
                !has_stale(p, next0),
                next0 <= self.next_seq,
                out@.len() == self.next_seq - next0,
                forall|k: u64| p.contains_key(k) ==> k < u64::MAX,
                self.pending@ == p.remove_keys(seq_range(next0 as int, self.next_seq as int)),
                out@ + ready_run(self.pending@, self.next_seq) == ready_run(p, next0),
            decreases u64::MAX - self.next_seq,
        {
            let n = self.next_seq;
            let ghost before = self.pending@;
            let item = self.pending.remove(&n).unwrap();
            proof {
                assert(before.contains_key(n));
                assert(n < u64::MAX);
                lemma_ready_run_remove_below(before, n, (n + 1) as u64);
                assert(ready_run(before, n) =~= seq![(n, item)] + ready_run(
                    before,
                    (n + 1) as u64,
                ));
            }
            out.push((n, item));
            self.next_seq = n + 1;
            proof {
                assert(self.pending@ =~= p.remove_keys(
                    seq_range(next0 as int, self.next_seq as int),
                ));
                assert(out@ + ready_run(self.pending@, self.next_seq) =~= ready_run(p, next0));
            }
        }
        proof {
            assert(ready_run(self.pending@, self.next_seq) =~= Seq::<(u64, T)>::empty());
            assert(out@ =~= ready_run(p, next0));
            if has_stale(self.pending@, self.next_seq) {
                let k = choose|k: u64| self.pending@.contains_key(k) && k < self.next_seq;
                assert(p.contains_key(k));
            }
        }
        out
    }
}

/// A buffer that has received nothing.
pub open spec fn reorder_start<T>() -> ReorderState<T> {
    ReorderState { next: 0, pending: Map::empty() }
}

/// The state after the items of `arrivals` arrive one by one, in that order, and the
/// items released meanwhile, in the order of release.
pub open spec fn reorder_feed<T>(s: ReorderState<T>, arrivals: Seq<(u64, T)>) -> (
    ReorderState<T>,
    Seq<(u64, T)>,
)
    decreases arrivals.len(),
{
    if arrivals.len() == 0 {
        (s, Seq::empty())
    } else {
        let before = reorder_feed(s, arrivals.drop_last());
        let step = reorder_step(before.0, arrivals.last().0, arrivals.last().1);
        (step.0, before.1 + step.1)
    }
}

/// Whatever arrives, and in whatever order, a fresh buffer releases sequence numbers
/// 0, 1, 2, ... in this order, each once, and the next one it waits for is the count
/// released so far.
pub proof fn lemma_released_contiguous<T>(arrivals: Seq<(u64, T)>)
    ensures
        reorder_feed(reorder_start(), arrivals).0.next == reorder_feed(
            reorder_start(),
            arrivals,
        ).1.len(),
        forall|i: int|
            0 <= i < reorder_feed(reorder_start(), arrivals).1.len() ==> (#[trigger] reorder_feed(
                reorder_start(),
                arrivals,
            ).1[i]).0 == i,
    decreases arrivals.len(),
{
    if arrivals.len() > 0 {
        let before = reorder_feed(reorder_start::<T>(), arrivals.drop_last());
        lemma_released_contiguous(arrivals.drop_last());
        let p = before.0.pending.insert(arrivals.last().0, arrivals.last().1);
        lemma_ready_run_contiguous(p, before.0.next);
        let all = reorder_feed(reorder_start::<T>(), arrivals).1;
        assert forall|i: int| 0 <= i < all.len() implies (#[trigger] all[i]).0 == i by {
            if i >= before.1.len() {
                assert(all[i] == ready_run(p, before.0.next)[i - before.1.len()]);
            }
        }
    }
}

/// Whether the sequence number `k` is among the first `j` arrivals.
pub open spec fn arrived<T>(arrivals: Seq<(u64, T)>, j: int, k: u64) -> bool {
    exists|i: int| 0 <= i < j && arrivals[i].0 == k
}

/// `arrivals` is a reordering of `emitted`, whose sequence numbers are 0, 1, 2, ...:
/// every emitted item arrives exactly once, and nothing else arrives.
pub open spec fn is_reordering<T>(emitted: Seq<(u64, T)>, arrivals: Seq<(u64, T)>) -> bool {
    &&& forall|i: int| 0 <= i < emitted.len() ==> (#[trigger] emitted[i]).0 == i
    &&& forall|j: int|
        0 <= j < arrivals.len() ==> (#[trigger] arrivals[j]).0 < emitted.len() && arrivals[j]
            == emitted[arrivals[j].0 as int]
    &&& forall|j1: int, j2: int|
        0 <= j1 < arrivals.len() && 0 <= j2 < arrivals.len() && j1 != j2 ==> (
        #[trigger] arrivals[j1]).0 != (#[trigger] arrivals[j2]).0
    &&& forall|k: u64| k < emitted.len() ==> arrived(arrivals, arrivals.len() as int, k)
}

/// What holds after the first `j` arrivals of a reordering: the released items are the
/// first emitted ones, and the pending ones are exactly those arrived beyond them.
spec fn restore_inv<T>(
    emitted: Seq<(u64, T)>,
    arrivals: Seq<(u64, T)>,
    j: int,
    s: ReorderState<T>,
    out: Seq<(u64, T)>,
) -> bool {
    &&& s.next <= emitted.len()
    &&& out == emitted.take(s.next as int)
    &&& !s.pending.contains_key(s.next)
    &&& forall|k: u64| #[trigger]
        s.pending.contains_key(k) ==> s.next < k && k < emitted.len() && s.pending[k]
            == emitted[k as int].1 && arrived(arrivals, j, k)
    &&& forall|k: u64| #[trigger] arrived(arrivals, j, k) && k >= s.next ==> s.pending.contains_key(k)
    &&& forall|k: u64| k < s.next ==> #[trigger] arrived(arrivals, j, k)
}

proof fn lemma_restore_prefix<T>(emitted: Seq<(u64, T)>, arrivals: Seq<(u64, T)>, j: int)
    requires
        is_reordering(emitted, arrivals),
        emitted.len() < u64::MAX,
        0 <= j <= arrivals.len(),
    ensures
        restore_inv(
            emitted,
            arrivals,
            j,
            reorder_feed(reorder_start(), arrivals.take(j)).0,
            reorder_feed(reorder_start(), arrivals.take(j)).1,
        ),
    decreases j,
{
    let pre = arrivals.take(j);
    if j == 0 {
        assert(pre =~= Seq::<(u64, T)>::empty());
        assert(emitted.take(0) =~= Seq::<(u64, T)>::empty());
    } else {
        lemma_restore_prefix(emitted, arrivals, j - 1);
        assert(pre.drop_last() =~= arrivals.take(j - 1));
        let before = reorder_feed(reorder_start::<T>(), arrivals.take(j - 1));
        let s = before.0;
        let a = arrivals[j - 1];
        let k0 = a.0;
        assert(pre.last() == a);
        // The new sequence number has not arrived before, so it was not released yet.
        assert(!arrived(arrivals, j - 1, k0)) by {
            if arrived(arrivals, j - 1, k0) {
                let i = choose|i: int| 0 <= i < j - 1 && arrivals[i].0 == k0;
                assert(arrivals[i].0 != arrivals[j - 1].0);
            }
        }
        assert(k0 >= s.next);
        let p = s.pending.insert(k0, a.1);
        assert(a == emitted[k0 as int]);
        assert(!has_stale(p, s.next)) by {
            if has_stale(p, s.next) {
                let k = choose|k: u64| p.contains_key(k) && k < s.next;
                if k != k0 {
                    assert(s.pending.contains_key(k));
                }
            }
        }
        lemma_ready_run_contiguous(p, s.next);
        let r = ready_run(p, s.next);
        let next2 = s.next + r.len();
        let pending2 = p.remove_keys(seq_range(s.next as int, next2));
        let after = reorder_feed(reorder_start::<T>(), pre);
        assert(after.0.pending == pending2);
        assert(after.0.next == next2);
        assert(after.1 == before.1 + r);
        assert forall|k: u64| #[trigger] arrived(arrivals, j - 1, k) implies arrived(
            arrivals,
            j,
            k,
        ) by {
            let i = choose|i: int| 0 <= i < j - 1 && arrivals[i].0 == k;
        }
        assert(arrived(arrivals, j, k0));
        assert forall|k: u64| #[trigger] arrived(arrivals, j, k) implies k == k0 || arrived(
            arrivals,
            j - 1,
            k,
        ) by {
            let i = choose|i: int| 0 <= i < j && arrivals[i].0 == k;
            if i < j - 1 {
                assert(arrived(arrivals, j - 1, k));
            }
        }
        // Every pending key lies below the end of the emitted sequence.
        assert forall|k: u64| #[trigger] p.contains_key(k) implies k < emitted.len() && p[k]
            == emitted[k as int].1 && arrived(arrivals, j, k) by {
            if k != k0 {
                assert(s.pending.contains_key(k));
            }
        }
        if r.len() > 0 {
            let last = r[r.len() - 1];
            assert(p.contains_key((s.next + r.len() - 1) as u64));
        }
        assert(next2 <= emitted.len());
        assert forall|i: int| 0 <= i < r.len() implies #[trigger] r[i] == emitted[s.next + i] by {
            let k = (s.next + i) as u64;
            let e = r[i];
            assert(p.contains_key(k));
        }
        assert(after.1 =~= emitted.take(next2));
        assert forall|k: u64| k < next2 implies #[trigger] arrived(arrivals, j, k) by {
            if k >= s.next {
                let i = k - s.next;
                assert(r[i].0 == k);
                assert(p.contains_key(k));
            } else {
                assert(arrived(arrivals, j - 1, k));
            }
        }
        assert forall|k: u64| #[trigger]
            arrived(arrivals, j, k) && k >= next2 implies pending2.contains_key(k) by {
            if k != k0 {
                assert(arrived(arrivals, j - 1, k));
                assert(s.pending.contains_key(k));
            }
        }
    }
}

/// However the items of an emission are reordered on their way, a fresh buffer that
/// receives them all releases exactly the emission, in its order.
pub proof fn lemma_reordering_restores_order<T>(
    emitted: Seq<(u64, T)>,
    arrivals: Seq<(u64, T)>,
)
    requires
        is_reordering(emitted, arrivals),
        emitted.len() < u64::MAX,
    ensures
        reorder_feed(reorder_start(), arrivals).1 == emitted,
{
    lemma_restore_prefix(emitted, arrivals, arrivals.len() as int);
    assert(arrivals.take(arrivals.len() as int) =~= arrivals);
    let s = reorder_feed(reorder_start::<T>(), arrivals).0;
    if s.next < emitted.len() {
        assert(arrived(arrivals, arrivals.len() as int, s.next));
    }
    assert(emitted.take(emitted.len() as int) =~= emitted);
}

} // verus!
