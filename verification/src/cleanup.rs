//! Why one pass over the directories, deepest first, leaves no empty
//! directory behind.

use vstd::prelude::*;
use crate::organizer::{examined_before, is_cleaning_order, EntryKind, FileEntry};

verus! {

/// Whether `inner` lies somewhere below `outer`.
pub open spec fn lies_below(inner: Seq<Seq<char>>, outer: Seq<Seq<char>>) -> bool {
    outer.len() < inner.len() && inner.take(outer.len() as int) == outer
}

/// Whether `child` lies directly in `parent`.
pub open spec fn lies_in(child: Seq<Seq<char>>, parent: Seq<Seq<char>>) -> bool {
    child.len() == parent.len() + 1 && child.drop_last() == parent
}

/// Whether the directory at position `dir` of the scan is empty once the
/// entries in `gone` are removed: everything that lies in it is gone.
pub open spec fn found_empty(entries: Seq<FileEntry>, gone: Set<int>, dir: int) -> bool {
    forall|k: int|
        0 <= k < entries.len() && lies_in((#[trigger] entries[k]).path@, entries[dir].path@)
            ==> gone.contains(k)
}

/// The entries that are removed in the first `steps` steps of a pass that
/// examines the directories in the given order and removes each that it
/// finds empty. Only directories are examined, so nothing else is removed.
pub open spec fn removed_by(entries: Seq<FileEntry>, order: Seq<usize>, steps: nat) -> Set<int>
    decreases steps,
{
    if steps == 0 {
        Set::empty()
    } else {
        let gone = removed_by(entries, order, (steps - 1) as nat);
        let dir = order[steps - 1] as int;
        if found_empty(entries, gone, dir) {
            gone.insert(dir)
        } else {
            gone
        }
    }
}

/// Each directory is examined before every directory that it lies below.
pub proof fn lemma_deeper_directories_come_first(
    entries: Seq<FileEntry>,
    order: Seq<usize>,
    i: int,
    j: int,
)
    requires
        is_cleaning_order(entries, order),
        0 <= i < order.len(),
        0 <= j < order.len(),
        lies_below(entries[order[i] as int].path@, entries[order[j] as int].path@),
    ensures
        i < j,
{
    if j < i {
        assert(examined_before(entries, order[j], order[i]));
    }
}

/// What is removed stays removed, and only examined directories are
/// removed.
pub proof fn lemma_removed_grows(entries: Seq<FileEntry>, order: Seq<usize>, early: nat, late: nat)
    requires
        early <= late <= order.len(),
    ensures
        removed_by(entries, order, early).subset_of(removed_by(entries, order, late)),
        forall|k: int| #[trigger]
            removed_by(entries, order, late).contains(k) ==> exists|s: int|
                0 <= s < late && order[s] == k,
    decreases late,
{
    if late > 0 {
        if early < late {
            lemma_removed_grows(entries, order, early, (late - 1) as nat);
        } else {
            lemma_removed_grows(entries, order, (late - 1) as nat, (late - 1) as nat);
        }
        let before = removed_by(entries, order, (late - 1) as nat);
        assert forall|k: int| #[trigger]
            removed_by(entries, order, late).contains(k) implies exists|s: int|
            0 <= s < late && order[s] == k by {
            if before.contains(k) {
                let s = choose|s: int| 0 <= s < late - 1 && order[s] == k;
                assert(0 <= s < late && order[s] == k);
            } else {
                assert(order[late - 1] == k);
            }
        }
    }
}

/// Whether a directory is removed is settled when it is examined.
pub proof fn lemma_removed_is_settled(
    entries: Seq<FileEntry>,
    order: Seq<usize>,
    s: int,
    steps: nat,
)
    requires
        is_cleaning_order(entries, order),
        0 <= s < steps <= order.len(),
    ensures
        removed_by(entries, order, steps).contains(order[s] as int) == found_empty(
            entries,
            removed_by(entries, order, s as nat),
            order[s] as int,
        ),
    decreases steps,
{
    let dir = order[s] as int;
    if steps == s + 1 {
        let before = removed_by(entries, order, s as nat);
        lemma_removed_grows(entries, order, s as nat, s as nat);
        if before.contains(dir) {
            let t = choose|t: int| 0 <= t < s && order[t] == dir;
            assert(examined_before(entries, order[t], order[s]));
        }
    } else {
        lemma_removed_is_settled(entries, order, s, (steps - 1) as nat);
        assert(examined_before(entries, order[s], order[steps - 1]));
    }
}

/// One pass is enough. After a pass that examines the directories deepest
/// first and removes each that it finds empty, a directory of the scan is
/// gone exactly if everything that lay in it is gone: no directory is left
/// that the pass emptied, however deep the removals began.
pub proof fn lemma_one_pass_leaves_no_empty_directory(
    entries: Seq<FileEntry>,
    order: Seq<usize>,
    dir: int,
)
    requires
        is_cleaning_order(entries, order),
        0 <= dir < entries.len() <= usize::MAX,
        entries[dir].kind == EntryKind::Directory,
    ensures
        removed_by(entries, order, order.len()).contains(dir) == found_empty(
            entries,
            removed_by(entries, order, order.len()),
            dir,
        ),
{
    let n = order.len();
    let gone = removed_by(entries, order, n);
    assert(order.contains(dir as usize));
    let s = choose|s: int| 0 <= s < order.len() && order[s] == dir as usize;
    let before = removed_by(entries, order, s as nat);
    lemma_removed_is_settled(entries, order, s, n);
    lemma_removed_grows(entries, order, s as nat, n);
    assert forall|k: int|
        0 <= k < entries.len() && lies_in((#[trigger] entries[k]).path@, entries[dir].path@)
            && gone.contains(k) implies before.contains(k) by {
        let t = choose|t: int| 0 <= t < n && order[t] == k;
        assert(entries[k].path@.len() == entries[dir].path@.len() + 1);
        if s <= t {
            if s < t {
                assert(examined_before(entries, order[s], order[t]));
            }
            assert(false);
        } else {
            lemma_removed_is_settled(entries, order, t, n);
            lemma_removed_is_settled(entries, order, t, (t + 1) as nat);
            lemma_removed_grows(entries, order, (t + 1) as nat, s as nat);
        }
    }
    if found_empty(entries, before, dir) {
        assert(found_empty(entries, gone, dir));
    }
    if found_empty(entries, gone, dir) {
        assert(found_empty(entries, before, dir));
    }
}

} // verus!
