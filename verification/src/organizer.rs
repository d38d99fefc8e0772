//! The organizer: what to do with each entry of a scan.

use vstd::prelude::*;
use vstd::string::*;
use crate::dates::{bucket_text, date_folder, local_date, CalendarDate, DateFormat, Timestamp};
use crate::dates::format_selector;
use crate::paths::{file_name, path_extension, FilePath};
use crate::counting::lemma_filter_next;
use crate::ranking::{is_ranking, rank_descending};
use crate::stats::{collect, is_summary, Statistics};
use crate::utils::{folder_name, get_file_type_folder};

verus! {

/// What kind of thing a scanned entry is.
#[derive(Clone, Copy, Debug, PartialEq, Eq, Structural)]
pub enum EntryKind {
    File,
    Directory,
    Other,
}

/// What the scan read of a file besides its name.
#[derive(Clone, Copy, Debug, PartialEq, Eq, Structural)]
pub struct FileMeta {
    pub size: u64,
    pub modified: Timestamp,
}

/// One entry of a scan. `metadata` holds the reason where the size and the
/// time of the entry could not be read.
#[derive(Debug, PartialEq, Eq)]
pub struct FileEntry {
    pub path: FilePath,
    pub kind: EntryKind,
    pub metadata: Result<FileMeta, String>,
}

/// Why a file, or a whole request, cannot be served.
#[derive(Clone, Copy, Debug, PartialEq, Eq, Structural)]
pub enum OrganizeError {
    /// The path does not end in a name.
    MissingFileName,
    /// The selector is none of `year`, `month`, `day`.
    InvalidDateFormat,
    /// The scan could not read the size and the time of the entry.
    MetadataUnavailable,
    /// The time of the file lies beyond the calendar.
    DateOutOfRange,
    /// The sizes add up to more than a total can hold.
    TotalSizeOverflow,
}

/// What is to happen to a file.
#[derive(Clone, Copy, Debug, PartialEq, Eq, Structural)]
pub enum MoveKind {
    /// The file is where it belongs.
    Skip,
    /// The move is reported and not made.
    Preview,
    /// The folder is created and the file moved into it.
    Relocate,
}

/// The plan for one file: where it is, the folder it belongs in, and the
/// path it has there.
#[derive(Clone, Debug, PartialEq, Eq)]
pub struct MovePlan {
    pub kind: MoveKind,
    pub from: FilePath,
    pub dir: FilePath,
    pub to: FilePath,
}

/// The plan for one entry of a scan, or why there is none. `entry` is the
/// position of the entry in the scan.
#[derive(Debug, PartialEq, Eq)]
pub struct FileStep {
    pub entry: usize,
    pub plan: Result<MovePlan, OrganizeError>,
}

/// Plans the work on the entries that a scan of `source` found; files go
/// to folders under `target`.
#[derive(Clone, Debug, PartialEq, Eq)]
pub struct FileOrganizer {
    pub source: FilePath,
    pub target: FilePath,
}

/// Whether `positions` lists, in scan order, the entries of one kind.
pub open spec fn lists_kind(entries: Seq<FileEntry>, kind: EntryKind, positions: Seq<usize>) -> bool {
    &&& forall|i: int|
        0 <= i < positions.len() ==> #[trigger] positions[i] < entries.len()
            && entries[positions[i] as int].kind == kind
    &&& forall|i: int, j: int| 0 <= i < j < positions.len() ==> positions[i] < positions[j]
    &&& forall|k: int|
        0 <= k < entries.len() && (#[trigger] entries[k]).kind == kind ==> positions.contains(
            k as usize,
        )
}

/// The folder that a file belongs in by its type. A file without an
/// extension is filed as if its extension were `unknown`.
pub open spec fn type_folder(path: Seq<Seq<char>>) -> Seq<char> {
    match path_extension(path) {
        Some(extension) => folder_name(extension),
        None => folder_name("unknown"@),
    }
}

/// Where a file goes: into `folder` under `target`, under its own name.
pub open spec fn destination(target: Seq<Seq<char>>, folder: Seq<char>, path: Seq<Seq<char>>) -> Seq<
    Seq<char>,
> {
    target.push(folder).push(file_name(path).unwrap())
}

/// What is to happen to a file with a given destination.
pub open spec fn move_kind(path: Seq<Seq<char>>, to: Seq<Seq<char>>, dry_run: bool) -> MoveKind {
    if path == to {
        MoveKind::Skip
    } else if dry_run {
        MoveKind::Preview
    } else {
        MoveKind::Relocate
    }
}

impl MovePlan {
    /// Whether carrying the plan out changes anything on disk.
    pub open spec fn touches_disk(&self) -> bool {
        self.kind == MoveKind::Relocate
    }
}

/// Whether none of the steps changes anything on disk.
pub open spec fn touch_nothing(steps: Seq<FileStep>) -> bool {
    forall|i: int|
        0 <= i < steps.len() ==> match (#[trigger] steps[i]).plan {
            Ok(plan) => !plan.touches_disk(),
            Err(_) => true,
        }
}

/// Whether `plan` sends the file at `path` into `folder` under `target`.
pub open spec fn plan_sends(
    plan: MovePlan,
    target: Seq<Seq<char>>,
    folder: Seq<char>,
    path: Seq<Seq<char>>,
    dry_run: bool,
) -> bool {
    &&& plan.from@ == path
    &&& plan.dir@ == target.push(folder)
    &&& plan.to@ == destination(target, folder, path)
    &&& plan.kind == move_kind(path, destination(target, folder, path), dry_run)
}

/// Whether `outcome` is what planning by type gives for the file at `path`.
pub open spec fn is_type_plan(
    outcome: Result<MovePlan, OrganizeError>,
    target: Seq<Seq<char>>,
    path: Seq<Seq<char>>,
    dry_run: bool,
) -> bool {
    match outcome {
        Ok(plan) => file_name(path) is Some && plan_sends(
            plan,
            target,
            type_folder(path),
            path,
            dry_run,
        ),
        Err(error) => file_name(path) is None && error == OrganizeError::MissingFileName,
    }
}

/// Whether `outcome` is what planning by date gives for the file at `path`
/// whose time falls on `date`.
pub open spec fn is_date_plan(
    outcome: Result<MovePlan, OrganizeError>,
    target: Seq<Seq<char>>,
    path: Seq<Seq<char>>,
    date: CalendarDate,
    format: DateFormat,
    dry_run: bool,
) -> bool {
    match outcome {
        Ok(plan) => file_name(path) is Some && date.is_valid() && plan_sends(
            plan,
            target,
            bucket_text(date, format),
            path,
            dry_run,
        ),
        Err(error) => if file_name(path) is None {
            error == OrganizeError::MissingFileName
        } else {
            !date.is_valid() && error == OrganizeError::DateOutOfRange
        },
    }
}

/// Whether `outcome` is what planning by date gives for an entry of a scan,
/// where `local` is the day that its time falls on, if the calendar has it.
pub open spec fn is_entry_date_plan(
    outcome: Result<MovePlan, OrganizeError>,
    target: Seq<Seq<char>>,
    entry: FileEntry,
    local: Option<CalendarDate>,
    format: DateFormat,
    dry_run: bool,
) -> bool {
    if file_name(entry.path@) is None {
        outcome == Err::<MovePlan, OrganizeError>(OrganizeError::MissingFileName)
    } else if entry.metadata is Err {
        outcome == Err::<MovePlan, OrganizeError>(OrganizeError::MetadataUnavailable)
    } else {
        match local {
            Some(date) => is_date_plan(outcome, target, entry.path@, date, format, dry_run),
            None => outcome == Err::<MovePlan, OrganizeError>(OrganizeError::DateOutOfRange),
        }
    }
}

/// Whether `outcome` is what planning by date gives for an entry of a scan
/// on some day that its time may fall on.
pub open spec fn admits_entry_date_plan(
    outcome: Result<MovePlan, OrganizeError>,
    target: Seq<Seq<char>>,
    entry: FileEntry,
    format: DateFormat,
    dry_run: bool,
) -> bool {
    exists|local: Option<CalendarDate>|
        is_entry_date_plan(outcome, target, entry, local, format, dry_run)
}

/// The positions of the entries of one kind, in scan order.
pub fn positions_of(entries: &Vec<FileEntry>, kind: EntryKind) -> (positions: Vec<usize>)
    ensures
        lists_kind(entries@, kind, positions@),
{
    let mut positions: Vec<usize> = Vec::new();
    let mut k: usize = 0;
    while k < entries.len()
        invariant
            k <= entries@.len(),
            forall|i: int|
                0 <= i < positions@.len() ==> #[trigger] positions@[i] < k
                    && entries@[positions@[i] as int].kind == kind,
            forall|i: int, j: int| 0 <= i < j < positions@.len() ==> positions@[i] < positions@[j],
            forall|q: int|
                0 <= q < k && (#[trigger] entries@[q]).kind == kind ==> positions@.contains(
                    q as usize,
                ),
        decreases entries@.len() - k,
    {
        if entries[k].kind == kind {
            let ghost before = positions@;
            positions.push(k);
            proof {
                assert(positions@[positions@.len() - 1] == k);
                assert forall|q: int|
                    0 <= q < k + 1 && (#[trigger] entries@[q]).kind == kind implies positions@.contains(
                    q as usize,
                ) by {
                    if q < k {
                        assert(before.contains(q as usize));
                        let i = choose|i: int| 0 <= i < before.len() && before[i] == q as usize;
                        assert(positions@[i] == q as usize);
                    }
                }
            }
        }
        k += 1;
    }
    positions
}

impl FileOrganizer {
    /// An organizer for the entries of `source`, filing under `target`.
    pub fn new(source: FilePath, target: FilePath) -> (organizer: FileOrganizer)
        ensures
            organizer.source == source,
            organizer.target == target,
    {
        FileOrganizer { source, target }
    }

    fn plan_into(&self, file_path: &FilePath, name: &str, folder: &str, dry_run: bool) -> (plan:
        MovePlan)
        requires
            file_name(file_path@) == Some(name@),
        ensures
            plan_sends(plan, self.target@, folder@, file_path@, dry_run),
    {
        let dir = self.target.join(folder);
        let to = dir.join(name);
        let kind = if file_path.same_as(&to) {
            MoveKind::Skip
        } else if dry_run {
            MoveKind::Preview
        } else {
            MoveKind::Relocate
        };
        MovePlan { kind, from: file_path.duplicate(), dir, to }
    }

    /// Plans the move of one file into the folder of its type.
    pub fn move_file_by_type(&self, file_path: &FilePath, dry_run: bool) -> (outcome: Result<
        MovePlan,
        OrganizeError,
    >)
        ensures
            is_type_plan(outcome, self.target@, file_path@, dry_run),
            dry_run ==> (outcome matches Ok(plan) ==> !plan.touches_disk()),
    {
        let name = match file_path.file_name() {
            Some(name) => name,
            None => {
                return Err(OrganizeError::MissingFileName);
            },
        };
        let folder = match file_path.extension() {
            Some(extension) => get_file_type_folder(extension.as_str()),
            None => get_file_type_folder("unknown"),
        };
        Ok(self.plan_into(file_path, name, folder.as_str(), dry_run))
    }

    /// Plans the move of one file into the folder of the day, month or year
    /// that `date` falls in.
    pub fn move_file_by_date(
        &self,
        file_path: &FilePath,
        date: CalendarDate,
        format: DateFormat,
        dry_run: bool,
    ) -> (outcome: Result<MovePlan, OrganizeError>)
        ensures
            is_date_plan(outcome, self.target@, file_path@, date, format, dry_run),
            dry_run ==> (outcome matches Ok(plan) ==> !plan.touches_disk()),
    {
        let name = match file_path.file_name() {
            Some(name) => name,
            None => {
                return Err(OrganizeError::MissingFileName);
            },
        };
        match date_folder(date, format) {
            Some(folder) => Ok(self.plan_into(file_path, name, folder.as_str(), dry_run)),
            None => Err(OrganizeError::DateOutOfRange),
        }
    }

    /// Plans the move of one entry of a scan by the day that its time falls
    /// on in the time zone of the machine.
    pub fn move_entry_by_date(&self, entry: &FileEntry, format: DateFormat, dry_run: bool) -> (outcome:
        Result<MovePlan, OrganizeError>)
        ensures
            admits_entry_date_plan(outcome, self.target@, *entry, format, dry_run),
            dry_run ==> (outcome matches Ok(plan) ==> !plan.touches_disk()),
    {
        if entry.path.file_name().is_none() {
            assert(is_entry_date_plan(
                Err(OrganizeError::MissingFileName),
                self.target@,
                *entry,
                None,
                format,
                dry_run,
            ));
            return Err(OrganizeError::MissingFileName);
        }
        let modified = match &entry.metadata {
            Ok(meta) => meta.modified,
            Err(_) => {
                assert(is_entry_date_plan(
                    Err(OrganizeError::MetadataUnavailable),
                    self.target@,
                    *entry,
                    None,
                    format,
                    dry_run,
                ));
                return Err(OrganizeError::MetadataUnavailable);
            },
        };
        let local = local_date(modified);
        let outcome = match local {
            Some(date) => self.move_file_by_date(&entry.path, date, format, dry_run),
            None => Err(OrganizeError::DateOutOfRange),
        };
        assert(is_entry_date_plan(outcome, self.target@, *entry, local, format, dry_run));
        outcome
    }

    /// Plans the move of every file of a scan into the folder of its type.
    /// Entries that are not files get no step.
    pub fn organize_by_type(&self, entries: &Vec<FileEntry>, dry_run: bool) -> (steps: Vec<FileStep>)
        ensures
            lists_kind(entries@, EntryKind::File, steps@.map_values(|s: FileStep| s.entry)),
            forall|i: int|
                0 <= i < steps@.len() ==> is_type_plan(
                    (#[trigger] steps@[i]).plan,
                    self.target@,
                    entries@[steps@[i].entry as int].path@,
                    dry_run,
                ),
            dry_run ==> touch_nothing(steps@),
    {
        let positions = positions_of(entries, EntryKind::File);
        let mut steps: Vec<FileStep> = Vec::new();
        let mut i: usize = 0;
        while i < positions.len()
            invariant
                i <= positions@.len(),
                steps@.len() == i,
                lists_kind(entries@, EntryKind::File, positions@),
                forall|j: int| 0 <= j < i ==> (#[trigger] steps@[j]).entry == positions@[j],
                forall|j: int|
                    0 <= j < i ==> is_type_plan(
                        (#[trigger] steps@[j]).plan,
                        self.target@,
                        entries@[steps@[j].entry as int].path@,
                        dry_run,
                    ),
                dry_run ==> touch_nothing(steps@),
            decreases positions@.len() - i,
        {
            let k: usize = positions[i];
            let plan = self.move_file_by_type(&entries[k].path, dry_run);
            steps.push(FileStep { entry: k, plan });
            i += 1;
        }
        assert(steps@.map_values(|s: FileStep| s.entry) =~= positions@);
        steps
    }

    /// Plans the move of every file of a scan into the folder of its date.
    /// The selector is read before any file is looked at: with a selector
    /// other than `year`, `month` or `day` there are no steps at all.
    pub fn organize_by_date(&self, entries: &Vec<FileEntry>, format: &str, dry_run: bool) -> (steps:
        Result<Vec<FileStep>, OrganizeError>)
        ensures
            match steps {
                Ok(steps) => exists|chosen: DateFormat|
                    {
                        &&& format@ == format_selector(chosen)
                        &&& lists_kind(
                            entries@,
                            EntryKind::File,
                            steps@.map_values(|s: FileStep| s.entry),
                        )
                        &&& forall|i: int|
                            0 <= i < steps@.len() ==> admits_entry_date_plan(
                                (#[trigger] steps@[i]).plan,
                                self.target@,
                                entries@[steps@[i].entry as int],
                                chosen,
                                dry_run,
                            )
                    },
                Err(error) => error == OrganizeError::InvalidDateFormat && forall|f: DateFormat|
                    format@ != format_selector(f),
            },
            dry_run ==> (steps matches Ok(steps) ==> touch_nothing(steps@)),
    {
        let chosen = match DateFormat::parse(format) {
            Some(chosen) => chosen,
            None => {
                return Err(OrganizeError::InvalidDateFormat);
            },
        };
        let positions = positions_of(entries, EntryKind::File);
        let mut steps: Vec<FileStep> = Vec::new();
        let mut i: usize = 0;
        while i < positions.len()
            invariant
                i <= positions@.len(),
                steps@.len() == i,
                lists_kind(entries@, EntryKind::File, positions@),
                forall|j: int| 0 <= j < i ==> (#[trigger] steps@[j]).entry == positions@[j],
                forall|j: int|
                    0 <= j < i ==> admits_entry_date_plan(
                        (#[trigger] steps@[j]).plan,
                        self.target@,
                        entries@[steps@[j].entry as int],
                        chosen,
                        dry_run,
                    ),
                dry_run ==> touch_nothing(steps@),
            decreases positions@.len() - i,
        {
            let k: usize = positions[i];
            let plan = self.move_entry_by_date(&entries[k], chosen, dry_run);
            steps.push(FileStep { entry: k, plan });
            i += 1;
        }
        assert(steps@.map_values(|s: FileStep| s.entry) =~= positions@);
        Ok(steps)
    }
}

/// What became of one file.
#[derive(Debug, PartialEq, Eq)]
pub enum MoveOutcome {
    /// The file went, or in a dry run would go, from the first path to the
    /// second.
    Moved(FilePath, FilePath),
    /// The file was already in place.
    Skipped,
    /// The file at the path stays where it is, for the reason given.
    Error(FilePath, String),
}

/// The counts that a run ends with.
#[derive(Clone, Copy, Debug, PartialEq, Eq, Structural)]
pub struct RunSummary {
    pub moved: usize,
    pub errors: usize,
}

/// What an error says.
pub open spec fn error_text(error: OrganizeError) -> Seq<char> {
    match error {
        OrganizeError::MissingFileName => "Failed to get file name"@,
        OrganizeError::InvalidDateFormat => "Invalid date format"@,
        OrganizeError::MetadataUnavailable => "Failed to read file metadata"@,
        OrganizeError::DateOutOfRange => "File time is out of range"@,
        OrganizeError::TotalSizeOverflow => "Total size is too large"@,
    }
}

/// Why a file could not be planned for: what the scan reported where it
/// could not read the entry, else what the error says.
pub open spec fn failure_cause(error: OrganizeError, entry: FileEntry) -> Seq<char> {
    match entry.metadata {
        Err(cause) if error == OrganizeError::MetadataUnavailable => cause@,
        _ => error_text(error),
    }
}

/// Whether `outcome` is what became of the file of `entry` under `plan`,
/// where `failure` is the reason, if any, for which carrying the plan out
/// failed.
pub open spec fn is_outcome(
    outcome: MoveOutcome,
    plan: Result<MovePlan, OrganizeError>,
    entry: FileEntry,
    failure: Option<String>,
) -> bool {
    match plan {
        Err(error) => outcome matches MoveOutcome::Error(path, cause) && path@ == entry.path@
            && cause@ == failure_cause(error, entry),
        Ok(plan) => match plan.kind {
            MoveKind::Skip => outcome is Skipped,
            MoveKind::Preview => outcome matches MoveOutcome::Moved(from, to) && from@ == plan.from@
                && to@ == plan.to@,
            MoveKind::Relocate => match failure {
                None => outcome matches MoveOutcome::Moved(from, to) && from@ == plan.from@ && to@
                    == plan.to@,
                Some(reason) => outcome matches MoveOutcome::Error(path, cause) && path@
                    == plan.from@ && cause@ == reason@,
            },
        },
    }
}

/// The number of files that moved, or in a dry run would move.
pub open spec fn moved_count(outcomes: Seq<MoveOutcome>) -> nat {
    outcomes.filter(|o: MoveOutcome| o is Moved).len()
}

/// The number of files that an error kept in place.
pub open spec fn error_count(outcomes: Seq<MoveOutcome>) -> nat {
    outcomes.filter(|o: MoveOutcome| o is Error).len()
}

impl OrganizeError {
    /// What the error says.
    pub fn message(&self) -> (text: String)
        ensures
            text@ == error_text(*self),
    {
        match self {
            OrganizeError::MissingFileName => "Failed to get file name".to_owned(),
            OrganizeError::InvalidDateFormat => "Invalid date format".to_owned(),
            OrganizeError::MetadataUnavailable => "Failed to read file metadata".to_owned(),
            OrganizeError::DateOutOfRange => "File time is out of range".to_owned(),
            OrganizeError::TotalSizeOverflow => "Total size is too large".to_owned(),
        }
    }
}

impl FileStep {
    /// What became of the file. `entry` is the entry that the step was
    /// planned for; `failure` is the reason for which creating the folder or
    /// moving the file failed, `None` where it went well or nothing was to
    /// be done.
    pub fn settle(&self, entry: &FileEntry, failure: Option<String>) -> (outcome: MoveOutcome)
        ensures
            is_outcome(outcome, self.plan, *entry, failure),
    {
        match &self.plan {
            Err(error) => {
                let cause = match &entry.metadata {
                    Err(cause) => if *error == OrganizeError::MetadataUnavailable {
                        cause.clone()
                    } else {
                        error.message()
                    },
                    Ok(_) => error.message(),
                };
                MoveOutcome::Error(entry.path.duplicate(), cause)
            },
            Ok(plan) => match plan.kind {
                MoveKind::Skip => MoveOutcome::Skipped,
                MoveKind::Preview => MoveOutcome::Moved(plan.from.duplicate(), plan.to.duplicate()),
                MoveKind::Relocate => match failure {
                    None => MoveOutcome::Moved(plan.from.duplicate(), plan.to.duplicate()),
                    Some(reason) => MoveOutcome::Error(plan.from.duplicate(), reason),
                },
            },
        }
    }
}

impl RunSummary {
    /// Counts what became of the files of a run.
    pub fn tally(outcomes: &Vec<MoveOutcome>) -> (summary: RunSummary)
        ensures
            summary.moved == moved_count(outcomes@),
            summary.errors == error_count(outcomes@),
    {
        let mut moved: usize = 0;
        let mut errors: usize = 0;
        let mut i: usize = 0;
        proof {
            crate::counting::lemma_filter_none(outcomes@.take(0), |o: MoveOutcome| o is Moved);
            crate::counting::lemma_filter_none(outcomes@.take(0), |o: MoveOutcome| o is Error);
        }
        while i < outcomes.len()
            invariant
                i <= outcomes@.len(),
                moved == moved_count(outcomes@.take(i as int)),
                errors == error_count(outcomes@.take(i as int)),
                moved <= i,
                errors <= i,
            decreases outcomes@.len() - i,
        {
            proof {
                lemma_filter_next(outcomes@, |o: MoveOutcome| o is Moved, i as int);
                lemma_filter_next(outcomes@, |o: MoveOutcome| o is Error, i as int);
            }
            match &outcomes[i] {
                MoveOutcome::Moved(_, _) => {
                    moved += 1;
                },
                MoveOutcome::Skipped => {},
                MoveOutcome::Error(_, _) => {
                    errors += 1;
                },
            }
            i += 1;
        }
        assert(outcomes@.take(outcomes@.len() as int) =~= outcomes@);
        RunSummary { moved, errors }
    }
}

/// What is to happen to a directory.
#[derive(Clone, Copy, Debug, PartialEq, Eq, Structural)]
pub enum CleanAction {
    /// The directory holds something and stays.
    Keep,
    /// The removal is reported and not made.
    Preview,
    /// The directory is removed.
    Remove,
}

/// Whether the entry at `a` is examined before the entry at `b`: it lies
/// deeper, or as deep and earlier in the scan.
pub open spec fn examined_before(entries: Seq<FileEntry>, a: usize, b: usize) -> bool {
    let deep_a = entries[a as int].path@.len();
    let deep_b = entries[b as int].path@.len();
    deep_a > deep_b || (deep_a == deep_b && a < b)
}

/// Whether `order` is the order in which the directories of a scan are
/// examined: each directory once, deeper ones first, and directories of
/// one depth as the scan found them.
pub open spec fn is_cleaning_order(entries: Seq<FileEntry>, order: Seq<usize>) -> bool {
    &&& forall|i: int|
        0 <= i < order.len() ==> #[trigger] order[i] < entries.len()
            && entries[order[i] as int].kind == EntryKind::Directory
    &&& forall|k: int|
        0 <= k < entries.len() && (#[trigger] entries[k]).kind == EntryKind::Directory
            ==> order.contains(k as usize)
    &&& forall|i: int, j: int|
        0 <= i < j < order.len() ==> examined_before(entries, order[i], order[j])
}

/// The number of directories that were removed, or in a dry run would be.
pub open spec fn removed_count(actions: Seq<CleanAction>) -> nat {
    actions.filter(|a: CleanAction| a != CleanAction::Keep).len()
}

/// What is to happen to a directory that was found empty, or not.
pub fn clean_action(is_empty: bool, dry_run: bool) -> (action: CleanAction)
    ensures
        action == if !is_empty {
            CleanAction::Keep
        } else if dry_run {
            CleanAction::Preview
        } else {
            CleanAction::Remove
        },
        dry_run ==> action != CleanAction::Remove,
{
    if !is_empty {
        CleanAction::Keep
    } else if dry_run {
        CleanAction::Preview
    } else {
        CleanAction::Remove
    }
}

/// Counts the directories that were removed, or in a dry run would be.
pub fn count_removed(actions: &Vec<CleanAction>) -> (count: usize)
    ensures
        count == removed_count(actions@),
{
    let mut count: usize = 0;
    let mut i: usize = 0;
    proof {
        crate::counting::lemma_filter_none(
            actions@.take(0),
            |a: CleanAction| a != CleanAction::Keep,
        );
    }
    while i < actions.len()
        invariant
            i <= actions@.len(),
            count == removed_count(actions@.take(i as int)),
            count <= i,
        decreases actions@.len() - i,
    {
        proof {
            lemma_filter_next(actions@, |a: CleanAction| a != CleanAction::Keep, i as int);
        }
        match actions[i] {
            CleanAction::Keep => {},
            _ => {
                count += 1;
            },
        }
        i += 1;
    }
    assert(actions@.take(actions@.len() as int) =~= actions@);
    count
}

impl FileOrganizer {
    /// The order in which the directories of a scan are examined for
    /// removal, as positions in the scan: deepest first.
    pub fn clean_empty_dirs(&self, entries: &Vec<FileEntry>) -> (order: Vec<usize>)
        ensures
            is_cleaning_order(entries@, order@),
    {
        let dirs = positions_of(entries, EntryKind::Directory);
        let mut depths: Vec<usize> = Vec::new();
        let mut i: usize = 0;
        while i < dirs.len()
            invariant
                i <= dirs@.len(),
                depths@.len() == i,
                lists_kind(entries@, EntryKind::Directory, dirs@),
                forall|j: int|
                    0 <= j < i ==> depths@[j] == entries@[dirs@[j] as int].path@.len(),
            decreases dirs@.len() - i,
        {
            depths.push(entries[dirs[i]].path.depth());
            i += 1;
        }
        let ranking = rank_descending(&depths);
        let mut order: Vec<usize> = Vec::new();
        let mut r: usize = 0;
        while r < ranking.len()
            invariant
                r <= ranking@.len(),
                order@.len() == r,
                is_ranking(depths@, ranking@),
                depths@.len() == dirs@.len(),
                forall|j: int| 0 <= j < r ==> order@[j] == dirs@[ranking@[j] as int],
            decreases ranking@.len() - r,
        {
            order.push(dirs[ranking[r]]);
            r += 1;
        }
        proof {
            assert forall|k: int|
                0 <= k < entries@.len() && (#[trigger] entries@[k]).kind
                    == EntryKind::Directory implies order@.contains(k as usize) by {
                assert(dirs@.contains(k as usize));
                let a = choose|a: int| 0 <= a < dirs@.len() && dirs@[a] == k as usize;
                assert(ranking@.contains(a as usize));
                let p = choose|p: int| 0 <= p < ranking@.len() && ranking@[p] == a as usize;
                assert(order@[p] == k as usize);
            }
            assert forall|i: int, j: int| 0 <= i < j < order@.len() implies examined_before(
                entries@,
                order@[i],
                order@[j],
            ) by {
                assert(crate::ranking::ranks_before(depths@, ranking@[i], ranking@[j]));
            }
        }
        order
    }
}

impl FileOrganizer {
    /// Summarises the files of a scan by extension.
    pub fn show_stats(&self, entries: &Vec<FileEntry>) -> (outcome: Result<Statistics, OrganizeError>)
        ensures
            is_summary(outcome, entries@),
    {
        collect(entries)
    }
}

/// A file that stands where it is sent is left alone: the destination of a
/// file, looked at as a file of its own, has the same name and is sent to
/// where it already is, so the plan for it is to skip it.
pub proof fn lemma_destination_is_settled(
    target: Seq<Seq<char>>,
    folder: Seq<char>,
    path: Seq<Seq<char>>,
    dry_run: bool,
)
    requires
        file_name(path) is Some,
    ensures
        ({
            let to = destination(target, folder, path);
            &&& file_name(to) == file_name(path)
            &&& path_extension(to) == path_extension(path)
            &&& destination(target, folder, to) == to
            &&& move_kind(to, destination(target, folder, to), dry_run) == MoveKind::Skip
        }),
{
    let to = destination(target, folder, path);
    assert(to.last() == path.last());
}

/// Organizing by type a second time moves nothing that the first time put
/// in place: the plan for a file at the destination that its type gave it
/// is to skip it.
pub proof fn lemma_organized_file_is_skipped(
    outcome: Result<MovePlan, OrganizeError>,
    target: Seq<Seq<char>>,
    path: Seq<Seq<char>>,
    dry_run: bool,
)
    requires
        file_name(path) is Some,
        is_type_plan(outcome, target, destination(target, type_folder(path), path), dry_run),
    ensures
        outcome matches Ok(plan) && plan.kind == MoveKind::Skip,
{
    lemma_destination_is_settled(target, type_folder(path), path, dry_run);
}

/// A file of the scanned directory that is sent elsewhere leaves the
/// scanned directory: its destination is no entry of that directory, so
/// the next scan of the directory does not meet the file again.
pub proof fn lemma_moved_file_leaves_the_scan(
    source: Seq<Seq<char>>,
    target: Seq<Seq<char>>,
    folder: Seq<char>,
    path: Seq<Seq<char>>,
)
    requires
        file_name(path) is Some,
        path.drop_last() == source,
        destination(target, folder, path) != path,
    ensures
        destination(target, folder, path).drop_last() != source,
{
    let to = destination(target, folder, path);
    if to.drop_last() == source {
        assert(to =~= source.push(path.last()));
        assert(path =~= source.push(path.last()));
    }
}

} // verus!
