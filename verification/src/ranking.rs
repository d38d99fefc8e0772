//! A stable ranking of positions by a key, largest key first.

use vstd::prelude::*;

verus! {

/// Whether position `a` is ranked ahead of position `b`: its key is larger,
/// or the keys are equal and `a` comes first.
pub open spec fn ranks_before(keys: Seq<usize>, a: usize, b: usize) -> bool {
    keys[a as int] > keys[b as int] || (keys[a as int] == keys[b as int] && a < b)
}

/// Whether every position of the sequence is ranked ahead of all that
/// follow it.
pub open spec fn is_ranked(keys: Seq<usize>, order: Seq<usize>) -> bool {
    forall|i: int, j: int| 0 <= i < j < order.len() ==> ranks_before(keys, order[i], order[j])
}

/// Whether every member of the sequence is a position from `lo` up to `hi`.
pub open spec fn within(order: Seq<usize>, lo: int, hi: int) -> bool {
    forall|i: int| 0 <= i < order.len() ==> lo <= #[trigger] order[i] < hi
}

/// Whether every position from `lo` up to `hi` is a member of the sequence.
pub open spec fn covers(order: Seq<usize>, lo: int, hi: int) -> bool {
    forall|k: usize| lo <= k < hi ==> order.contains(k)
}

/// Whether `order` is the ranking of the positions of `keys`: it holds each
/// position once, larger keys first, and positions with equal keys in their
/// own order.
pub open spec fn is_ranking(keys: Seq<usize>, order: Seq<usize>) -> bool {
    &&& order.len() == keys.len()
    &&& within(order, 0, keys.len() as int)
    &&& covers(order, 0, keys.len() as int)
    &&& is_ranked(keys, order)
}

fn goes_first(keys: &Vec<usize>, a: usize, b: usize) -> (first: bool)
    requires
        a < keys@.len(),
        b < keys@.len(),
    ensures
        first == ranks_before(keys@, a, b),
{
    keys[a] > keys[b] || (keys[a] == keys[b] && a < b)
}

fn merge(keys: &Vec<usize>, left: &Vec<usize>, right: &Vec<usize>) -> (out: Vec<usize>)
    requires
        within(left@, 0, keys@.len() as int),
        within(right@, 0, keys@.len() as int),
        is_ranked(keys@, left@),
        is_ranked(keys@, right@),
        forall|a: int, b: int| 0 <= a < left@.len() && 0 <= b < right@.len() ==> left@[a] != right@[b],
    ensures
        out@.len() == left@.len() + right@.len(),
        is_ranked(keys@, out@),
        forall|p: int| 0 <= p < out@.len() ==> left@.contains(out@[p]) || right@.contains(out@[p]),
        forall|a: int| 0 <= a < left@.len() ==> out@.contains(left@[a]),
        forall|b: int| 0 <= b < right@.len() ==> out@.contains(right@[b]),
{
    let mut out: Vec<usize> = Vec::new();
    let mut i: usize = 0;
    let mut j: usize = 0;
    while i < left.len() || j < right.len()
        invariant
            i <= left@.len(),
            j <= right@.len(),
            out@.len() == i + j,
            within(left@, 0, keys@.len() as int),
            within(right@, 0, keys@.len() as int),
            is_ranked(keys@, left@),
            is_ranked(keys@, right@),
            forall|a: int, b: int|
                0 <= a < left@.len() && 0 <= b < right@.len() ==> left@[a] != right@[b],
            is_ranked(keys@, out@),
            forall|p: int, a: int|
                0 <= p < out@.len() && i <= a < left@.len() ==> ranks_before(
                    keys@,
                    out@[p],
                    left@[a],
                ),
            forall|p: int, b: int|
                0 <= p < out@.len() && j <= b < right@.len() ==> ranks_before(
                    keys@,
                    out@[p],
                    right@[b],
                ),
            forall|p: int|
                0 <= p < out@.len() ==> left@.contains(out@[p]) || right@.contains(out@[p]),
            forall|a: int| 0 <= a < i ==> out@.contains(left@[a]),
            forall|b: int| 0 <= b < j ==> out@.contains(right@[b]),
        decreases left@.len() - i + right@.len() - j,
    {
        let ghost before = out@;
        let take_left: bool = if j >= right.len() {
            true
        } else if i >= left.len() {
            false
        } else {
            goes_first(keys, left[i], right[j])
        };
        if take_left {
            let x: usize = left[i];
            out.push(x);
            i += 1;
            proof {
                assert(left@.contains(x));
                assert(out@[out@.len() - 1] == x);
            }
        } else {
            let x: usize = right[j];
            out.push(x);
            j += 1;
            proof {
                assert(right@.contains(x));
                assert(out@[out@.len() - 1] == x);
            }
        }
        proof {
            assert(forall|p: int| 0 <= p < before.len() ==> out@[p] == before[p]);
            let x = out@[out@.len() - 1];
            assert forall|a: int| i <= a < left@.len() implies ranks_before(
                keys@,
                x,
                left@[a],
            ) by {
                if take_left {
                    assert(ranks_before(keys@, left@[i - 1], left@[a]));
                } else {
                    assert(left@[i as int] != right@[j - 1]);
                    assert(ranks_before(keys@, right@[j - 1], left@[i as int]));
                    if a > i {
                        assert(ranks_before(keys@, left@[i as int], left@[a]));
                    }
                }
            }
            assert forall|b: int| j <= b < right@.len() implies ranks_before(
                keys@,
                x,
                right@[b],
            ) by {
                if take_left {
                    assert(ranks_before(keys@, left@[i - 1], right@[j as int]));
                    if b > j {
                        assert(ranks_before(keys@, right@[j as int], right@[b]));
                    }
                } else {
                    assert(ranks_before(keys@, right@[j - 1], right@[b]));
                }
            }
            assert forall|a: int| 0 <= a < i implies out@.contains(left@[a]) by {
                if a < i - 1 || !take_left {
                    assert(before.contains(left@[a]));
                    let p = choose|p: int| 0 <= p < before.len() && before[p] == left@[a];
                    assert(out@[p] == left@[a]);
                } else {
                    assert(out@[out@.len() - 1] == left@[a]);
                }
            }
            assert forall|b: int| 0 <= b < j implies out@.contains(right@[b]) by {
                if b < j - 1 || take_left {
                    assert(before.contains(right@[b]));
                    let p = choose|p: int| 0 <= p < before.len() && before[p] == right@[b];
                    assert(out@[p] == right@[b]);
                } else {
                    assert(out@[out@.len() - 1] == right@[b]);
                }
            }
        }
    }
    out
}

fn rank_range(keys: &Vec<usize>, lo: usize, hi: usize) -> (out: Vec<usize>)
    requires
        lo <= hi <= keys@.len(),
    ensures
        out@.len() == hi - lo,
        within(out@, lo as int, hi as int),
        covers(out@, lo as int, hi as int),
        is_ranked(keys@, out@),
    decreases hi - lo,
{
    if hi - lo == 0 {
        Vec::new()
    } else if hi - lo == 1 {
        let mut out: Vec<usize> = Vec::new();
        out.push(lo);
        assert(out@[0] == lo);
        out
    } else {
        let mid: usize = lo + (hi - lo) / 2;
        let left = rank_range(keys, lo, mid);
        let right = rank_range(keys, mid, hi);
        let out = merge(keys, &left, &right);
        proof {
            assert forall|i: int| 0 <= i < out@.len() implies lo <= #[trigger] out@[i] < hi by {
                if left@.contains(out@[i]) {
                    let a = choose|a: int| 0 <= a < left@.len() && left@[a] == out@[i];
                    assert(lo <= left@[a] < mid);
                } else {
                    let b = choose|b: int| 0 <= b < right@.len() && right@[b] == out@[i];
                    assert(mid <= right@[b] < hi);
                }
            }
            assert forall|k: usize| lo <= k < hi implies out@.contains(k) by {
                if k < mid {
                    assert(left@.contains(k));
                    let a = choose|a: int| 0 <= a < left@.len() && left@[a] == k;
                    assert(out@.contains(left@[a]));
                } else {
                    assert(right@.contains(k));
                    let b = choose|b: int| 0 <= b < right@.len() && right@[b] == k;
                    assert(out@.contains(right@[b]));
                }
            }
        }
        out
    }
}

/// Ranks the positions of `keys`: larger keys first, equal keys in the order
/// in which they stand.
pub fn rank_descending(keys: &Vec<usize>) -> (order: Vec<usize>)
    ensures
        is_ranking(keys@, order@),
{
    rank_range(keys, 0, keys.len())
}

proof fn lemma_rankings_agree(keys: Seq<usize>, a: Seq<usize>, b: Seq<usize>, i: int)
    requires
        is_ranking(keys, a),
        is_ranking(keys, b),
        0 <= i < a.len(),
    ensures
        a[i] == b[i],
    decreases i,
{
    if a[i] != b[i] {
        assert(b.contains(a[i]));
        let j = choose|j: int| 0 <= j < b.len() && b[j] == a[i];
        if j < i {
            lemma_rankings_agree(keys, a, b, j);
            assert(ranks_before(keys, a[j], a[i]));
        }
        assert(ranks_before(keys, b[i], b[j]));
        assert(a.contains(b[i]));
        let k = choose|k: int| 0 <= k < a.len() && a[k] == b[i];
        if k < i {
            lemma_rankings_agree(keys, a, b, k);
            assert(ranks_before(keys, b[k], b[i]));
        }
        assert(ranks_before(keys, a[i], a[k]));
    }
}

/// There is one ranking: two sequences that both rank the positions of
/// `keys` are the same sequence.
pub proof fn lemma_ranking_is_unique(keys: Seq<usize>, a: Seq<usize>, b: Seq<usize>)
    requires
        is_ranking(keys, a),
        is_ranking(keys, b),
    ensures
        a == b,
{
    assert forall|i: int| 0 <= i < a.len() implies a[i] == b[i] by {
        lemma_rankings_agree(keys, a, b, i);
    }
    assert(a =~= b);
}

} // verus!
