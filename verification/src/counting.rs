//! Facts about selecting from a sequence and adding one up, as loops need
//! them.

use vstd::prelude::*;

verus! {

/// Selecting from one more member of a sequence adds that member, if it is
/// selected, to what was selected before.
pub proof fn lemma_filter_next<A>(s: Seq<A>, pred: spec_fn(A) -> bool, i: int)
    requires
        0 <= i < s.len(),
    ensures
        s.take(i + 1).filter(pred) == if pred(s[i]) {
            s.take(i).filter(pred).push(s[i])
        } else {
            s.take(i).filter(pred)
        },
{
    reveal(Seq::filter);
    assert(s.take(i + 1).drop_last() =~= s.take(i));
}

/// Nothing is selected from an empty sequence.
pub proof fn lemma_filter_none<A>(s: Seq<A>, pred: spec_fn(A) -> bool)
    requires
        s.len() == 0,
    ensures
        s.filter(pred).len() == 0,
{
    reveal(Seq::filter);
}

/// The sum of the members of a sequence.
pub open spec fn total(s: Seq<nat>) -> nat
    decreases s.len(),
{
    if s.len() == 0 {
        0
    } else {
        total(s.drop_last()) + s.last()
    }
}

/// A sum grows by what is appended.
pub proof fn lemma_total_push(s: Seq<nat>, x: nat)
    ensures
        total(s.push(x)) == total(s) + x,
{
    assert(s.push(x).drop_last() =~= s);
}

/// Replacing one member changes the sum by the difference.
pub proof fn lemma_total_update(s: Seq<nat>, i: int, x: nat)
    requires
        0 <= i < s.len(),
    ensures
        total(s.update(i, x)) + s[i] == total(s) + x,
    decreases s.len(),
{
    if i == s.len() - 1 {
        assert(s.update(i, x).drop_last() =~= s.drop_last());
    } else {
        assert(s.update(i, x).drop_last() =~= s.drop_last().update(i, x));
        lemma_total_update(s.drop_last(), i, x);
    }
}

/// Taking one member out lowers the sum by that member.
pub proof fn lemma_total_remove(s: Seq<nat>, i: int)
    requires
        0 <= i < s.len(),
    ensures
        total(s.remove(i)) + s[i] == total(s),
    decreases s.len(),
{
    if i == s.len() - 1 {
        assert(s.remove(i) =~= s.drop_last());
    } else {
        assert(s.remove(i).drop_last() =~= s.drop_last().remove(i));
        assert(s.remove(i).last() == s.last());
        lemma_total_remove(s.drop_last(), i);
    }
}

/// No member is larger than the sum.
pub proof fn lemma_total_bounds_member(s: Seq<nat>, i: int)
    requires
        0 <= i < s.len(),
    ensures
        s[i] <= total(s),
    decreases s.len(),
{
    if i < s.len() - 1 {
        lemma_total_bounds_member(s.drop_last(), i);
    }
}

/// Whether `order` holds each position below `n` exactly once.
pub open spec fn is_rearrangement(order: Seq<usize>, n: nat) -> bool {
    &&& order.len() == n
    &&& n <= usize::MAX
    &&& forall|i: int| 0 <= i < order.len() ==> #[trigger] order[i] < n
    &&& forall|i: int, j: int| 0 <= i < j < order.len() ==> order[i] != order[j]
    &&& forall|k: usize| k < n ==> order.contains(k)
}

/// The members of `values` in the order that `order` gives.
pub open spec fn rearranged(values: Seq<nat>, order: Seq<usize>) -> Seq<nat> {
    Seq::new(order.len(), |i: int| values[order[i] as int])
}

/// A sum does not depend on the order of its members.
pub proof fn lemma_total_rearranged(values: Seq<nat>, order: Seq<usize>)
    requires
        is_rearrangement(order, values.len()),
    ensures
        total(rearranged(values, order)) == total(values),
    decreases values.len(),
{
    let n = values.len();
    if n > 0 {
        assert(order.contains((n - 1) as usize));
        let p = choose|p: int| 0 <= p < order.len() && order[p] == (n - 1) as usize;
        let rest = order.remove(p);
        let fewer = values.drop_last();
        assert forall|k: usize| k < fewer.len() implies rest.contains(k) by {
            assert(order.contains(k));
            let i = choose|i: int| 0 <= i < order.len() && order[i] == k;
            if i < p {
                assert(rest[i] == k);
            } else {
                assert(rest[i - 1] == k);
            }
        }
        assert(is_rearrangement(rest, fewer.len()));
        lemma_total_rearranged(fewer, rest);
        assert(rearranged(values, order).remove(p) =~= rearranged(fewer, rest));
        lemma_total_remove(rearranged(values, order), p);
    }
}

} // verus!
