//! A summary of the files of a scan by extension.

use vstd::prelude::*;
use vstd::string::*;
use crate::counting::{
    is_rearrangement,
    lemma_filter_next,
    lemma_filter_none,
    lemma_total_bounds_member,
    lemma_total_push,
    lemma_total_rearranged,
    lemma_total_update,
    rearranged,
    total,
};
use crate::organizer::{EntryKind, FileEntry, OrganizeError};
use crate::paths::{path_extension, FilePath};
use crate::ranking::{is_ranking, rank_descending, ranks_before};
use crate::text::{lowercase, str_eq};

verus! {

/// The files of one label: how many there are and how large they are
/// together.
#[derive(Clone, Debug, PartialEq, Eq)]
pub struct Bucket {
    pub label: String,
    pub count: usize,
    pub size: u64,
}

/// The summary of a scan: the totals, and one bucket for each label, the
/// bucket with the most files first.
#[derive(Clone, Debug, PartialEq, Eq)]
pub struct Statistics {
    pub total_files: usize,
    pub total_size: u64,
    pub buckets: Vec<Bucket>,
}

/// The label that a file is counted under: its extension in lowercase, or
/// `no extension`.
pub open spec fn stats_label(path: Seq<Seq<char>>) -> Seq<char> {
    match path_extension(path) {
        Some(extension) => lowercase(extension),
        None => "no extension"@,
    }
}

/// The size that the scan read of an entry.
pub open spec fn file_size(entry: FileEntry) -> nat {
    match entry.metadata {
        Ok(meta) => meta.size as nat,
        Err(_) => 0,
    }
}

/// Selects the files.
pub open spec fn is_file() -> spec_fn(FileEntry) -> bool {
    |e: FileEntry| e.kind == EntryKind::File
}

/// Selects the files of one label.
pub open spec fn has_label(label: Seq<char>) -> spec_fn(FileEntry) -> bool {
    |e: FileEntry| e.kind == EntryKind::File && stats_label(e.path@) == label
}

/// Whether the scan read the size of every file.
pub open spec fn all_read(entries: Seq<FileEntry>) -> bool {
    forall|k: int|
        0 <= k < entries.len() && (#[trigger] entries[k]).kind == EntryKind::File
            ==> entries[k].metadata is Ok
}

/// The number of entries that are selected.
pub open spec fn count_of(entries: Seq<FileEntry>, selected: spec_fn(FileEntry) -> bool) -> nat {
    entries.filter(selected).len()
}

/// The size of the entries that are selected, all together.
pub open spec fn size_of(entries: Seq<FileEntry>, selected: spec_fn(FileEntry) -> bool) -> nat {
    total(entries.filter(selected).map_values(|e: FileEntry| file_size(e)))
}

/// The counts of the buckets.
pub open spec fn bucket_counts(buckets: Seq<Bucket>) -> Seq<nat> {
    buckets.map_values(|b: Bucket| b.count as nat)
}

/// The sizes of the buckets.
pub open spec fn bucket_sizes(buckets: Seq<Bucket>) -> Seq<nat> {
    buckets.map_values(|b: Bucket| b.size as nat)
}

impl Statistics {
    /// Whether these are the statistics of a scan.
    pub open spec fn summarises(&self, entries: Seq<FileEntry>) -> bool {
        let buckets = self.buckets@;
        &&& self.total_files == count_of(entries, is_file())
        &&& self.total_size == size_of(entries, is_file())
        &&& forall|i: int|
            0 <= i < buckets.len() ==> {
                let b = #[trigger] buckets[i];
                &&& b.count > 0
                &&& b.count == count_of(entries, has_label(b.label@))
                &&& b.size == size_of(entries, has_label(b.label@))
            }
        &&& forall|i: int, j: int|
            0 <= i < j < buckets.len() ==> buckets[i].label@ != buckets[j].label@
        &&& forall|k: int|
            0 <= k < entries.len() && (#[trigger] entries[k]).kind == EntryKind::File
                ==> exists|i: int|
                0 <= i < buckets.len() && (#[trigger] buckets[i]).label@ == stats_label(
                    entries[k].path@,
                )
        &&& forall|i: int, j: int|
            0 <= i < j < buckets.len() ==> buckets[i].count >= buckets[j].count
        &&& total(bucket_counts(buckets)) == self.total_files
        &&& total(bucket_sizes(buckets)) == self.total_size
    }
}

/// The size of one more entry adds to the size of what is selected, if the
/// entry is.
pub proof fn lemma_size_next(entries: Seq<FileEntry>, selected: spec_fn(FileEntry) -> bool, i: int)
    requires
        0 <= i < entries.len(),
    ensures
        size_of(entries.take(i + 1), selected) == size_of(entries.take(i), selected) + if selected(
            entries[i],
        ) {
            file_size(entries[i])
        } else {
            0
        },
        count_of(entries.take(i + 1), selected) == count_of(entries.take(i), selected) + if selected(
            entries[i],
        ) {
            1nat
        } else {
            0
        },
{
    lemma_filter_next(entries, selected, i);
    if selected(entries[i]) {
        let before = entries.take(i).filter(selected);
        assert(before.push(entries[i]).map_values(|e: FileEntry| file_size(e)) =~= before.map_values(
            |e: FileEntry| file_size(e),
        ).push(file_size(entries[i])));
        lemma_total_push(before.map_values(|e: FileEntry| file_size(e)), file_size(entries[i]));
    }
}

/// Of no entries, nothing is selected.
pub proof fn lemma_size_none(entries: Seq<FileEntry>, selected: spec_fn(FileEntry) -> bool)
    requires
        entries.len() == 0,
    ensures
        size_of(entries, selected) == 0,
        count_of(entries, selected) == 0,
{
    lemma_filter_none(entries, selected);
    assert(entries.filter(selected).map_values(|e: FileEntry| file_size(e)) =~= Seq::<nat>::empty());
}

/// The label that a file is counted under.
pub fn label_of(path: &FilePath) -> (label: String)
    ensures
        label@ == stats_label(path@),
{
    match path.extension() {
        Some(extension) => extension.as_str().to_lowercase(),
        None => "no extension".to_owned(),
    }
}

/// The numbers of a sequence as natural numbers.
pub open spec fn as_nats(counts: Seq<usize>) -> Seq<nat> {
    counts.map_values(|c: usize| c as nat)
}

/// The sizes of a sequence as natural numbers.
pub open spec fn sizes_as_nats(sizes: Seq<u64>) -> Seq<nat> {
    sizes.map_values(|z: u64| z as nat)
}

/// The tallies of a scan while it is being read: the labels in the order in
/// which they were first met, and for each its count and size.
struct Tallies {
    labels: Vec<String>,
    counts: Vec<usize>,
    sizes: Vec<u64>,
    total_files: usize,
    total_size: u64,
}

impl Tallies {
    /// Whether these are the tallies of the entries seen so far.
    spec fn holds(&self, seen: Seq<FileEntry>) -> bool {
        let labels = self.labels@;
        let counts = self.counts@;
        let sizes = self.sizes@;
        &&& labels.len() == counts.len()
        &&& labels.len() == sizes.len()
        &&& self.total_files == count_of(seen, is_file())
        &&& self.total_size == size_of(seen, is_file())
        &&& forall|i: int| 0 <= i < counts.len() ==> #[trigger] counts[i] > 0
        &&& forall|i: int|
            0 <= i < labels.len() ==> {
                &&& counts[i] == count_of(seen, has_label((#[trigger] labels[i])@))
                &&& sizes[i] == size_of(seen, has_label(labels[i]@))
            }
        &&& forall|i: int, j: int| 0 <= i < j < labels.len() ==> labels[i]@ != labels[j]@
        &&& forall|k: int|
            0 <= k < seen.len() && (#[trigger] seen[k]).kind == EntryKind::File ==> exists|i: int|
                0 <= i < labels.len() && (#[trigger] labels[i])@ == stats_label(seen[k].path@)
        &&& total(as_nats(counts)) == self.total_files
        &&& total(sizes_as_nats(sizes)) == self.total_size
    }

    fn new(Ghost(entries): Ghost<Seq<FileEntry>>) -> (tallies: Tallies)
        ensures
            tallies.holds(entries.take(0)),
    {
        let tallies = Tallies {
            labels: Vec::new(),
            counts: Vec::new(),
            sizes: Vec::new(),
            total_files: 0,
            total_size: 0,
        };
        proof {
            lemma_size_none(entries.take(0), is_file());
            assert(as_nats(tallies.counts@) =~= Seq::<nat>::empty());
            assert(sizes_as_nats(tallies.sizes@) =~= Seq::<nat>::empty());
        }
        tallies
    }

    fn find(&self, label: &str) -> (found: Option<usize>)
        ensures
            match found {
                Some(i) => i < self.labels@.len() && self.labels@[i as int]@ == label@,
                None => forall|i: int| 0 <= i < self.labels@.len() ==> self.labels@[i]@ != label@,
            },
    {
        let mut i: usize = 0;
        while i < self.labels.len()
            invariant
                i <= self.labels@.len(),
                forall|j: int| 0 <= j < i ==> self.labels@[j]@ != label@,
            decreases self.labels@.len() - i,
        {
            if str_eq(self.labels[i].as_str(), label) {
                return Some(i);
            }
            i += 1;
        }
        None
    }

    /// Passes over an entry that is no file.
    proof fn lemma_skip(&self, entries: Seq<FileEntry>, k: int)
        requires
            0 <= k < entries.len(),
            entries[k].kind != EntryKind::File,
            self.holds(entries.take(k)),
        ensures
            self.holds(entries.take(k + 1)),
    {
        let seen = entries.take(k);
        let next = entries.take(k + 1);
        lemma_size_next(entries, is_file(), k);
        assert(!is_file()(entries[k]));
        assert forall|i: int| 0 <= i < self.labels@.len() implies {
            &&& self.counts@[i] == count_of(next, has_label((#[trigger] self.labels@[i])@))
            &&& self.sizes@[i] == size_of(next, has_label(self.labels@[i]@))
        } by {
            lemma_size_next(entries, has_label(self.labels@[i]@), k);
            assert(!has_label(self.labels@[i]@)(entries[k]));
        }
        assert forall|q: int|
            0 <= q < next.len() && (#[trigger] next[q]).kind == EntryKind::File implies exists|
            i: int,
        |
            0 <= i < self.labels@.len() && (#[trigger] self.labels@[i])@ == stats_label(
                next[q].path@,
            ) by {
            assert(next[q] == seen[q]);
        }
    }

    /// Counts one more file.
    fn add_file(&mut self, label: String, size: u64, Ghost(entries): Ghost<Seq<FileEntry>>, Ghost(
        k,
    ): Ghost<int>)
        requires
            0 <= k < entries.len() <= usize::MAX,
            entries[k].kind == EntryKind::File,
            label@ == stats_label(entries[k].path@),
            size == file_size(entries[k]),
            old(self).holds(entries.take(k)),
            old(self).total_size + size <= u64::MAX,
        ensures
            final(self).holds(entries.take(k + 1)),
    {
        let ghost seen = entries.take(k);
        let ghost next = entries.take(k + 1);
        let ghost before = *self;
        proof {
            lemma_size_next(entries, is_file(), k);
            assert(is_file()(entries[k]));
            seen.lemma_filter_len(is_file());
            assert forall|i: int| 0 <= i < before.labels@.len() implies {
                &&& count_of(next, has_label((#[trigger] before.labels@[i])@)) == count_of(
                    seen,
                    has_label(before.labels@[i]@),
                ) + if before.labels@[i]@ == label@ {
                    1nat
                } else {
                    0
                }
                &&& size_of(next, has_label(before.labels@[i]@)) == size_of(
                    seen,
                    has_label(before.labels@[i]@),
                ) + if before.labels@[i]@ == label@ {
                    size as nat
                } else {
                    0
                }
            } by {
                lemma_size_next(entries, has_label(before.labels@[i]@), k);
                assert(has_label(before.labels@[i]@)(entries[k]) == (before.labels@[i]@ == label@));
            }
        }
        let ghost slot: int;
        match self.find(label.as_str()) {
            Some(i) => {
                proof {
                    slot = i as int;
                    lemma_total_bounds_member(as_nats(before.counts@), i as int);
                    lemma_total_bounds_member(sizes_as_nats(before.sizes@), i as int);
                    lemma_total_update(as_nats(before.counts@), i as int, (before.counts@[i as int] + 1) as nat);
                    lemma_total_update(
                        sizes_as_nats(before.sizes@),
                        i as int,
                        (before.sizes@[i as int] + size) as nat,
                    );
                }
                let count: usize = self.counts[i] + 1;
                let bytes: u64 = self.sizes[i] + size;
                self.counts.set(i, count);
                self.sizes.set(i, bytes);
                proof {
                    assert(as_nats(self.counts@) =~= as_nats(before.counts@).update(
                        i as int,
                        count as nat,
                    ));
                    assert(sizes_as_nats(self.sizes@) =~= sizes_as_nats(before.sizes@).update(
                        i as int,
                        bytes as nat,
                    ));
                }
            },
            None => {
                proof {
                    slot = before.labels@.len() as int;
                    assert forall|q: int|
                        0 <= q < k && (#[trigger] entries[q]).kind
                            == EntryKind::File implies exists|i: int|
                        0 <= i < before.labels@.len() && (#[trigger] before.labels@[i])@
                            == stats_label(entries[q].path@) by {
                        assert(seen[q] == entries[q]);
                    }
                    lemma_label_unseen(entries, label@, before.labels@, k);
                    lemma_size_next(entries, has_label(label@), k);
                    assert(has_label(label@)(entries[k]));
                    lemma_total_push(as_nats(before.counts@), 1);
                    lemma_total_push(sizes_as_nats(before.sizes@), size as nat);
                }
                self.labels.push(label);
                self.counts.push(1);
                self.sizes.push(size);
                proof {
                    assert(as_nats(self.counts@) =~= as_nats(before.counts@).push(1));
                    assert(sizes_as_nats(self.sizes@) =~= sizes_as_nats(before.sizes@).push(
                        size as nat,
                    ));
                }
            },
        }
        self.total_files = self.total_files + 1;
        self.total_size = self.total_size + size;
        proof {
            assert forall|q: int|
                0 <= q < next.len() && (#[trigger] next[q]).kind == EntryKind::File implies exists|
                i: int,
            |
                0 <= i < self.labels@.len() && (#[trigger] self.labels@[i])@ == stats_label(
                    next[q].path@,
                ) by {
                if q < k {
                    assert(seen[q] == next[q]);
                    let i = choose|i: int|
                        0 <= i < before.labels@.len() && (#[trigger] before.labels@[i])@
                            == stats_label(seen[q].path@);
                    assert(self.labels@[i]@ == stats_label(next[q].path@));
                } else {
                    assert(self.labels@[slot]@ == stats_label(next[q].path@));
                }
            }
        }
    }
}

/// A label that no file seen so far has is the label of no bucket, and
/// conversely: where every file seen has the label of a bucket, a label
/// that no bucket has was not seen.
proof fn lemma_label_unseen(entries: Seq<FileEntry>, label: Seq<char>, labels: Seq<String>, k: int)
    requires
        0 <= k <= entries.len(),
        forall|i: int| 0 <= i < labels.len() ==> (#[trigger] labels[i])@ != label,
        forall|q: int|
            0 <= q < k && (#[trigger] entries[q]).kind == EntryKind::File ==> exists|i: int|
                0 <= i < labels.len() && (#[trigger] labels[i])@ == stats_label(entries[q].path@),
    ensures
        count_of(entries.take(k), has_label(label)) == 0,
        size_of(entries.take(k), has_label(label)) == 0,
    decreases k,
{
    if k == 0 {
        lemma_size_none(entries.take(0), has_label(label));
    } else {
        lemma_label_unseen(entries, label, labels, k - 1);
        lemma_size_next(entries, has_label(label), k - 1);
        if entries[k - 1].kind == EntryKind::File {
            let i = choose|i: int|
                0 <= i < labels.len() && (#[trigger] labels[i])@ == stats_label(
                    entries[k - 1].path@,
                );
            assert(labels[i]@ != label);
        }
    }
}

/// What is selected from a beginning of a scan is no larger than what is
/// selected from the whole scan.
pub proof fn lemma_size_prefix(entries: Seq<FileEntry>, selected: spec_fn(FileEntry) -> bool, i: int)
    requires
        0 <= i <= entries.len(),
    ensures
        size_of(entries.take(i), selected) <= size_of(entries, selected),
    decreases entries.len() - i,
{
    if i < entries.len() {
        lemma_size_prefix(entries, selected, i + 1);
        lemma_size_next(entries, selected, i);
    } else {
        assert(entries.take(i) =~= entries);
    }
}

impl Tallies {
    /// The statistics that the tallies amount to, the buckets ranked by
    /// their counts.
    fn ranked(self, Ghost(entries): Ghost<Seq<FileEntry>>) -> (stats: Statistics)
        requires
            self.holds(entries),
        ensures
            stats.summarises(entries),
    {
        let order = rank_descending(&self.counts);
        let mut buckets: Vec<Bucket> = Vec::new();
        let mut r: usize = 0;
        while r < order.len()
            invariant
                r <= order@.len(),
                buckets@.len() == r,
                is_ranking(self.counts@, order@),
                self.holds(entries),
                forall|j: int|
                    0 <= j < r ==> {
                        let b = #[trigger] buckets@[j];
                        let i = order@[j] as int;
                        &&& b.label@ == self.labels@[i]@
                        &&& b.count == self.counts@[i]
                        &&& b.size == self.sizes@[i]
                    },
            decreases order@.len() - r,
        {
            let i: usize = order[r];
            buckets.push(
                Bucket { label: self.labels[i].clone(), count: self.counts[i], size: self.sizes[i] },
            );
            r += 1;
        }
        proof {
            assert forall|i: int, j: int| 0 <= i < j < order@.len() implies order@[i]
                != order@[j] by {
                assert(ranks_before(self.counts@, order@[i], order@[j]));
            }
            assert(is_rearrangement(order@, self.counts@.len()));
            lemma_total_rearranged(as_nats(self.counts@), order@);
            lemma_total_rearranged(sizes_as_nats(self.sizes@), order@);
            assert(bucket_counts(buckets@) =~= rearranged(as_nats(self.counts@), order@));
            assert(bucket_sizes(buckets@) =~= rearranged(sizes_as_nats(self.sizes@), order@));
            assert forall|i: int, j: int| 0 <= i < j < buckets@.len() implies buckets@[i].count
                >= buckets@[j].count by {
                assert(ranks_before(self.counts@, order@[i], order@[j]));
            }
            assert forall|k: int|
                0 <= k < entries.len() && (#[trigger] entries[k]).kind
                    == EntryKind::File implies exists|i: int|
                0 <= i < buckets@.len() && (#[trigger] buckets@[i]).label@ == stats_label(
                    entries[k].path@,
                ) by {
                let a = choose|a: int|
                    0 <= a < self.labels@.len() && (#[trigger] self.labels@[a])@ == stats_label(
                        entries[k].path@,
                    );
                assert(order@.contains(a as usize));
                let p = choose|p: int| 0 <= p < order@.len() && order@[p] == a as usize;
                assert(buckets@[p].label@ == stats_label(entries[k].path@));
            }
            assert forall|i: int| 0 <= i < buckets@.len() implies {
                let b = #[trigger] buckets@[i];
                &&& b.count > 0
                &&& b.count == count_of(entries, has_label(b.label@))
                &&& b.size == size_of(entries, has_label(b.label@))
            } by {
                let a = order@[i] as int;
                assert(self.counts@[a] > 0);
                assert(self.counts@[a] == count_of(entries, has_label(self.labels@[a]@)));
            }
        }
        Statistics { total_files: self.total_files, total_size: self.total_size, buckets }
    }
}

fn every_file_read(entries: &Vec<FileEntry>) -> (read: bool)
    ensures
        read == all_read(entries@),
{
    let mut k: usize = 0;
    while k < entries.len()
        invariant
            k <= entries@.len(),
            forall|q: int|
                0 <= q < k && (#[trigger] entries@[q]).kind == EntryKind::File
                    ==> entries@[q].metadata is Ok,
        decreases entries@.len() - k,
    {
        if entries[k].kind == EntryKind::File && entries[k].metadata.is_err() {
            return false;
        }
        k += 1;
    }
    true
}

/// Whether `outcome` is what summarising a scan gives: the statistics, or
/// the reason for which there are none. The scan must have read the size of
/// every file, and the sizes must add up to a total that fits.
pub open spec fn is_summary(outcome: Result<Statistics, OrganizeError>, entries: Seq<FileEntry>) -> bool {
    match outcome {
        Ok(stats) => all_read(entries) && size_of(entries, is_file()) <= u64::MAX
            && stats.summarises(entries),
        Err(error) => if !all_read(entries) {
            error == OrganizeError::MetadataUnavailable
        } else {
            error == OrganizeError::TotalSizeOverflow && size_of(entries, is_file()) > u64::MAX
        },
    }
}

/// Summarises the files of a scan by extension.
pub fn collect(entries: &Vec<FileEntry>) -> (outcome: Result<Statistics, OrganizeError>)
    ensures
        is_summary(outcome, entries@),
{
    if !every_file_read(entries) {
        return Err(OrganizeError::MetadataUnavailable);
    }
    let mut tallies = Tallies::new(Ghost(entries@));
    let mut k: usize = 0;
    while k < entries.len()
        invariant
            k <= entries@.len(),
            all_read(entries@),
            tallies.holds(entries@.take(k as int)),
        decreases entries@.len() - k,
    {
        if entries[k].kind == EntryKind::File {
            let size: u64 = match &entries[k].metadata {
                Ok(meta) => meta.size,
                Err(_) => 0,
            };
            if size > u64::MAX - tallies.total_size {
                proof {
                    lemma_size_next(entries@, is_file(), k as int);
                    assert(is_file()(entries@[k as int]));
                    lemma_size_prefix(entries@, is_file(), k + 1);
                }
                return Err(OrganizeError::TotalSizeOverflow);
            }
            let label = label_of(&entries[k].path);
            tallies.add_file(label, size, Ghost(entries@), Ghost(k as int));
        } else {
            proof {
                tallies.lemma_skip(entries@, k as int);
            }
        }
        k += 1;
    }
    assert(entries@.take(entries@.len() as int) =~= entries@);
    Ok(tallies.ranked(Ghost(entries@)))
}

/// How many buckets a report shows at most.
pub const SHOWN_BUCKETS: usize = 10;

impl Statistics {
    /// The number of buckets that a report shows: the first ten.
    pub fn shown(&self) -> (n: usize)
        ensures
            n == if self.buckets@.len() > SHOWN_BUCKETS {
                SHOWN_BUCKETS as int
            } else {
                self.buckets@.len() as int
            },
    {
        if self.buckets.len() > SHOWN_BUCKETS {
            SHOWN_BUCKETS
        } else {
            self.buckets.len()
        }
    }

    /// The number of buckets that a report leaves out.
    pub fn omitted(&self) -> (n: usize)
        ensures
            n == if self.buckets@.len() > SHOWN_BUCKETS {
                self.buckets@.len() - SHOWN_BUCKETS
            } else {
                0
            },
    {
        if self.buckets.len() > SHOWN_BUCKETS {
            self.buckets.len() - SHOWN_BUCKETS
        } else {
            0
        }
    }
}

} // verus!
