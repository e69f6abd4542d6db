use vstd::prelude::*;
use crate::gen_prio::{GenPrio, sorted_for_pop};

verus! {

broadcast use vstd::multiset::group_multiset_axioms;

/// Every priority in the queue is valid.
pub open spec fn all_valid(queue: Seq<((i32, i32, i32), GenPrio)>) -> bool {
    forall|i: int| 0 <= i < queue.len() ==> (#[trigger] queue[i]).1.valid()
}

/// The coordinates of the queue's entries, in order.
pub open spec fn coords(queue: Seq<((i32, i32, i32), GenPrio)>) -> Seq<(i32, i32, i32)> {
    Seq::new(queue.len(), |i: int| queue[i].0)
}

/// Exchanging two entries of a sequence keeps its entries as a multiset.
pub proof fn lemma_swap_multiset<A>(s: Seq<A>, i: int, j: int)
    requires
        0 <= i < s.len(),
        0 <= j < s.len(),
    ensures
        s.update(i, s[j]).update(j, s[i]).to_multiset() == s.to_multiset(),
{
    vstd::seq_lib::to_multiset_update(s, i, s[j]);
    vstd::seq_lib::to_multiset_update(s.update(i, s[j]), j, s[i]);
    vstd::seq_lib::to_multiset_contains(s, s[j]);
    vstd::seq_lib::to_multiset_contains(s, s[i]);
    assert(s.contains(s[j]));
    assert(s.contains(s[i]));
    let once = s.update(i, s[j]);
    assert(once[j] == s[j]);
    assert(once.to_multiset() == s.to_multiset().insert(s[j]).remove(s[i]));
    assert(once.update(j, s[i]).to_multiset() == once.to_multiset().insert(s[i]).remove(s[j]));
    assert(s.update(i, s[j]).update(j, s[i]).to_multiset() =~= s.to_multiset());
}

/// Two sequences with the same entries as multisets hold the same entries.
pub proof fn lemma_same_entries<A>(a: Seq<A>, b: Seq<A>)
    requires
        a.to_multiset() == b.to_multiset(),
    ensures
        forall|e: A| a.contains(e) <==> b.contains(e),
        a.len() == b.len(),
{
    assert forall|e: A| a.contains(e) <==> b.contains(e) by {
        vstd::seq_lib::to_multiset_contains(a, e);
        vstd::seq_lib::to_multiset_contains(b, e);
    }
    vstd::seq_lib::to_multiset_len(a);
    vstd::seq_lib::to_multiset_len(b);
}

/// Exchanging two entries of a queue keeps a duplicate-free coordinate list
/// duplicate-free.
pub proof fn lemma_swap_coords<A>(s: Seq<((i32, i32, i32), A)>, i: int, j: int)
    requires
        0 <= i < s.len(),
        0 <= j < s.len(),
        Seq::new(s.len(), |k: int| s[k].0).no_duplicates(),
    ensures
        ({
            let t = s.update(i, s[j]).update(j, s[i]);
            Seq::new(t.len(), |k: int| t[k].0).no_duplicates()
        }),
{
    let t = s.update(i, s[j]).update(j, s[i]);
    let cs = Seq::new(s.len(), |k: int| s[k].0);
    let ct = Seq::new(t.len(), |k: int| t[k].0);
    let swap = |k: int|
        if k == i {
            j
        } else if k == j {
            i
        } else {
            k
        };
    assert forall|a: int, b: int| 0 <= a < ct.len() && 0 <= b < ct.len() && a != b implies ct[a]
        != ct[b] by {
        assert(ct[a] == cs[swap(a)]);
        assert(ct[b] == cs[swap(b)]);
        assert(swap(a) != swap(b));
    }
}

/// The ranks of the queue's entries, in order.
pub open spec fn ranks(queue: Seq<((i32, i32, i32), GenPrio)>) -> Seq<(bool, bool, int)> {
    Seq::new(queue.len(), |i: int| queue[i].1.rank())
}

/// Whether rank `y` is at least as urgent as rank `x`.
pub open spec fn rank_no_later(x: (bool, bool, int), y: (bool, bool, int)) -> bool {
    if x.0 != y.0 {
        y.0
    } else if x.1 != y.1 {
        y.1
    } else {
        y.2 <= x.2
    }
}

/// Queues with the same entries have the same ranks, as multisets.
pub proof fn lemma_ranks_multiset(
    a: Seq<((i32, i32, i32), GenPrio)>,
    b: Seq<((i32, i32, i32), GenPrio)>,
)
    requires
        a.to_multiset() == b.to_multiset(),
    ensures
        ranks(a).to_multiset() == ranks(b).to_multiset(),
    decreases a.len(),
{
    lemma_same_entries(a, b);
    if a.len() == 0 {
        assert(ranks(a) =~= ranks(b));
    } else {
        let last = a.len() - 1;
        let x = a[last];
        assert(a.contains(x));
        let j = b.index_of(x);
        let a_rest = a.remove(last);
        let b_rest = b.remove(j);
        vstd::seq_lib::to_multiset_remove(a, last);
        vstd::seq_lib::to_multiset_remove(b, j);
        lemma_ranks_multiset(a_rest, b_rest);
        assert(ranks(a).remove(last) =~= ranks(a_rest));
        assert(ranks(b).remove(j) =~= ranks(b_rest));
        vstd::seq_lib::to_multiset_remove(ranks(a), last);
        vstd::seq_lib::to_multiset_remove(ranks(b), j);
        vstd::seq_lib::to_multiset_contains(ranks(a), ranks(a)[last]);
        vstd::seq_lib::to_multiset_contains(ranks(b), ranks(b)[j]);
        assert(ranks(a).contains(ranks(a)[last]));
        assert(ranks(b).contains(ranks(b)[j]));
        assert(ranks(a)[last] == ranks(b)[j]);
        assert(ranks(a).to_multiset() =~= ranks(a_rest).to_multiset().insert(ranks(a)[last]));
        assert(ranks(b).to_multiset() =~= ranks(b_rest).to_multiset().insert(ranks(b)[j]));
    }
}

/// The order in which a sorted queue hands out ranks does not depend on the
/// order in which its entries came: two queues with the same entries, both
/// sorted for popping, hold the same frustum flags and sort keys place by
/// place. Only entries of equal rank may stand in each other's place.
pub proof fn lemma_pop_order_is_fixed(
    a: Seq<((i32, i32, i32), GenPrio)>,
    b: Seq<((i32, i32, i32), GenPrio)>,
)
    requires
        sorted_for_pop(a),
        sorted_for_pop(b),
        a.to_multiset() == b.to_multiset(),
    ensures
        ranks(a) == ranks(b),
{
    let order = |x: (bool, bool, int), y: (bool, bool, int)| rank_no_later(x, y);
    lemma_ranks_multiset(a, b);
    assert(vstd::relations::sorted_by(ranks(a), order)) by {
        assert forall|i: int, j: int| 0 <= i < j < ranks(a).len() implies #[trigger] order(
            ranks(a)[i],
            ranks(a)[j],
        ) by {
            assert(!a[i].1.before(a[j].1));
        }
    }
    assert(vstd::relations::sorted_by(ranks(b), order)) by {
        assert forall|i: int, j: int| 0 <= i < j < ranks(b).len() implies #[trigger] order(
            ranks(b)[i],
            ranks(b)[j],
        ) by {
            assert(!b[i].1.before(b[j].1));
        }
    }
    assert(vstd::relations::total_ordering(order)) by {
        assert(vstd::relations::reflexive(order));
        assert(vstd::relations::antisymmetric(order));
        assert(vstd::relations::transitive(order));
        assert(vstd::relations::strongly_connected(order));
    }
    vstd::seq_lib::lemma_sorted_unique(ranks(a), ranks(b), order);
}

/// Sorts the queue so that the most urgent entry is last and can be popped:
/// no entry is more urgent than one behind it. The entries stay the same.
pub fn sort_for_pop(queue: &mut Vec<((i32, i32, i32), GenPrio)>)
    requires
        all_valid(old(queue)@),
    ensures
        sorted_for_pop(final(queue)@),
        final(queue)@.to_multiset() == old(queue)@.to_multiset(),
        final(queue)@.len() == old(queue)@.len(),
        all_valid(final(queue)@),
        coords(old(queue)@).no_duplicates() ==> coords(final(queue)@).no_duplicates(),
{
    let n = queue.len();
    let mut i: usize = 1;
    while i < n
        invariant
            queue@.len() == n,
            1 <= i || n == 0,
            all_valid(queue@),
            queue@.to_multiset() == old(queue)@.to_multiset(),
            coords(old(queue)@).no_duplicates() ==> coords(queue@).no_duplicates(),
            forall|a: int, b: int|
                0 <= a < b < i && b < n ==> !(#[trigger] queue@[a]).1.before(
                    (#[trigger] queue@[b]).1,
                ),
        decreases n - i,
    {
        let mut j: usize = i;
        while j > 0 && queue[j - 1].1.goes_before(&queue[j].1)
            invariant
                queue@.len() == n,
                0 <= j <= i < n,
                all_valid(queue@),
                queue@.to_multiset() == old(queue)@.to_multiset(),
                coords(old(queue)@).no_duplicates() ==> coords(queue@).no_duplicates(),
                forall|a: int, b: int|
                    0 <= a < b <= i && b != j ==> !(#[trigger] queue@[a]).1.before(
                        (#[trigger] queue@[b]).1,
                    ),
            decreases j,
        {
            let ghost before = queue@;
            let lower = queue[j - 1];
            let upper = queue[j];
            queue[j - 1] = upper;
            queue[j] = lower;
            proof {
                assert(queue@ == before.update(j - 1, before[j as int]).update(
                    j as int,
                    before[j - 1],
                ));
                lemma_swap_multiset(before, j - 1, j as int);
                if coords(old(queue)@).no_duplicates() {
                    lemma_swap_coords(before, j - 1, j as int);
                }
                assert forall|a: int, b: int| 0 <= a < b <= i && b != j - 1 implies !(
                #[trigger] queue@[a]).1.before((#[trigger] queue@[b]).1) by {
                    if b == j {
                        if a == j - 1 {
                        } else {
                            assert(!before[a].1.before(before[j - 1].1));
                        }
                    } else if a == j - 1 {
                        assert(!before[j as int].1.before(before[b].1));
                    } else if a == j {
                        assert(!before[j - 1].1.before(before[b].1));
                    } else {
                        assert(!before[a].1.before(before[b].1));
                    }
                }
            }
            j -= 1;
        }
        i += 1;
    }
}

} // verus!
