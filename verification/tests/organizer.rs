use forg::dates::{CalendarDate, DateFormat, Timestamp};
use forg::organizer::{
    positions_of, EntryKind, FileEntry, FileMeta, FileOrganizer, FileStep, MoveKind, MoveOutcome,
    MovePlan, OrganizeError, RunSummary,
};
use forg::paths::FilePath;

fn path(text: &str) -> FilePath {
    FilePath::new(text.split('/').map(String::from).collect())
}

fn noon_of_15_march_2024() -> Timestamp {
    Timestamp { secs: 1_710_504_000, nanos: 0 }
}

fn entry(text: &str, kind: EntryKind) -> FileEntry {
    FileEntry {
        path: path(text),
        kind,
        metadata: Ok(FileMeta { size: 1, modified: noon_of_15_march_2024() }),
    }
}

fn file(text: &str) -> FileEntry {
    entry(text, EntryKind::File)
}

fn plan(kind: MoveKind, from: &str, dir: &str, to: &str) -> MovePlan {
    MovePlan { kind, from: path(from), dir: path(dir), to: path(to) }
}

fn organizer(source: &str, target: &str) -> FileOrganizer {
    FileOrganizer::new(path(source), path(target))
}

#[test]
fn an_organizer_keeps_its_two_directories() {
    let o = organizer("in", "out");
    assert_eq!(o.source, path("in"));
    assert_eq!(o.target, path("out"));
}

#[test]
fn a_file_goes_to_the_folder_of_its_type() {
    let o = organizer("in", "out");
    assert_eq!(
        o.move_file_by_type(&path("in/photo.JPG"), false),
        Ok(plan(MoveKind::Relocate, "in/photo.JPG", "out/Images", "out/Images/photo.JPG"))
    );
    assert_eq!(
        o.move_file_by_type(&path("in/main.rs"), false),
        Ok(plan(MoveKind::Relocate, "in/main.rs", "out/Code", "out/Code/main.rs"))
    );
    assert_eq!(
        o.move_file_by_type(&path("in/data.xyz"), false),
        Ok(plan(MoveKind::Relocate, "in/data.xyz", "out/XYZ-Files", "out/XYZ-Files/data.xyz"))
    );
}

#[test]
fn a_file_without_extension_goes_to_others() {
    let o = organizer("in", "in");
    assert_eq!(
        o.move_file_by_type(&path("in/README"), false),
        Ok(plan(MoveKind::Relocate, "in/README", "in/Others", "in/Others/README"))
    );
    assert_eq!(
        o.move_file_by_type(&path("in/.profile"), false),
        Ok(plan(MoveKind::Relocate, "in/.profile", "in/Others", "in/Others/.profile"))
    );
    assert_eq!(
        o.move_file_by_type(&path("in/odd."), false),
        Ok(plan(MoveKind::Relocate, "in/odd.", "in/Others", "in/Others/odd."))
    );
}

#[test]
fn a_dry_run_previews_the_same_move() {
    let o = organizer("in", "out");
    assert_eq!(
        o.move_file_by_type(&path("in/a.pdf"), true),
        Ok(plan(MoveKind::Preview, "in/a.pdf", "out/Documents", "out/Documents/a.pdf"))
    );
}

#[test]
fn a_file_in_place_is_skipped() {
    let o = organizer("lib/Images", "lib");
    assert_eq!(
        o.move_file_by_type(&path("lib/Images/a.png"), false),
        Ok(plan(MoveKind::Skip, "lib/Images/a.png", "lib/Images", "lib/Images/a.png"))
    );
    assert_eq!(
        o.move_file_by_type(&path("lib/Images/a.png"), true),
        Ok(plan(MoveKind::Skip, "lib/Images/a.png", "lib/Images", "lib/Images/a.png"))
    );
}

#[test]
fn a_path_without_a_name_is_an_error() {
    let o = organizer("in", "out");
    assert_eq!(o.move_file_by_type(&path("in/.."), false), Err(OrganizeError::MissingFileName));
    assert_eq!(
        o.move_file_by_type(&FilePath::new(Vec::new()), true),
        Err(OrganizeError::MissingFileName)
    );
    let date = CalendarDate { year: 2024, month: 3, day: 15 };
    assert_eq!(
        o.move_file_by_date(&path("in/.."), date, DateFormat::Day, false),
        Err(OrganizeError::MissingFileName)
    );
}

#[test]
fn only_files_get_a_step() {
    let o = organizer("in", "in");
    let entries = vec![
        entry("in/sub", EntryKind::Directory),
        file("in/a.txt"),
        entry("in/link", EntryKind::Other),
        file("in/b.mp3"),
    ];
    assert_eq!(positions_of(&entries, EntryKind::File), vec![1, 3]);
    assert_eq!(positions_of(&entries, EntryKind::Directory), vec![0]);
    assert_eq!(positions_of(&entries, EntryKind::Other), vec![2]);
    let steps = o.organize_by_type(&entries, false);
    assert_eq!(
        steps,
        vec![
            FileStep {
                entry: 1,
                plan: Ok(plan(MoveKind::Relocate, "in/a.txt", "in/Documents", "in/Documents/a.txt")),
            },
            FileStep {
                entry: 3,
                plan: Ok(plan(MoveKind::Relocate, "in/b.mp3", "in/Audio", "in/Audio/b.mp3")),
            },
        ]
    );
    assert_eq!(o.organize_by_type(&Vec::new(), false), Vec::new());
}

#[test]
fn a_second_run_moves_nothing() {
    let o = organizer("in", "in");
    let first = vec![file("in/a.txt"), file("in/b.JPG"), file("in/c")];
    let steps = o.organize_by_type(&first, false);
    let mut moved = Vec::new();
    for step in &steps {
        let plan = step.plan.as_ref().unwrap();
        assert_eq!(plan.kind, MoveKind::Relocate);
        assert_ne!(plan.dir, o.source);
        moved.push(FileEntry {
            path: plan.to.duplicate(),
            kind: EntryKind::File,
            metadata: Ok(FileMeta { size: 1, modified: noon_of_15_march_2024() }),
        });
    }
    let again = o.organize_by_type(&moved, false);
    assert_eq!(again.len(), 3);
    for step in &again {
        assert_eq!(step.plan.as_ref().unwrap().kind, MoveKind::Skip);
    }
    let outcomes: Vec<MoveOutcome> =
        again.iter().zip(&moved).map(|(step, entry)| step.settle(entry, None)).collect();
    assert_eq!(RunSummary::tally(&outcomes), RunSummary { moved: 0, errors: 0 });
}

#[test]
fn a_dry_run_plans_no_change() {
    let o = organizer("in", "out");
    let entries = vec![file("in/a.txt"), file("in/b.JPG"), file("in/c"), file("in/..")];
    for step in o.organize_by_type(&entries, true) {
        if let Ok(plan) = step.plan {
            assert_ne!(plan.kind, MoveKind::Relocate);
        }
    }
    for step in o.organize_by_date(&entries, "day", true).unwrap() {
        if let Ok(plan) = step.plan {
            assert_ne!(plan.kind, MoveKind::Relocate);
        }
    }
}

#[test]
fn a_file_goes_to_the_folder_of_its_date() {
    let o = organizer("in", "out");
    let date = CalendarDate { year: 2024, month: 3, day: 15 };
    assert_eq!(
        o.move_file_by_date(&path("in/a.txt"), date, DateFormat::Day, false),
        Ok(plan(MoveKind::Relocate, "in/a.txt", "out/2024-03-15", "out/2024-03-15/a.txt"))
    );
    assert_eq!(
        o.move_file_by_date(&path("in/a.txt"), date, DateFormat::Month, true),
        Ok(plan(MoveKind::Preview, "in/a.txt", "out/2024-03", "out/2024-03/a.txt"))
    );
    assert_eq!(
        o.move_file_by_date(&path("in/a.txt"), date, DateFormat::Year, false),
        Ok(plan(MoveKind::Relocate, "in/a.txt", "out/2024", "out/2024/a.txt"))
    );
    let in_place = organizer("out/2024", "out");
    assert_eq!(
        in_place.move_file_by_date(&path("out/2024/a.txt"), date, DateFormat::Year, false),
        Ok(plan(MoveKind::Skip, "out/2024/a.txt", "out/2024", "out/2024/a.txt"))
    );
}

#[test]
fn a_day_that_does_not_exist_is_an_error() {
    let o = organizer("in", "out");
    let date = CalendarDate { year: 2023, month: 2, day: 30 };
    assert_eq!(
        o.move_file_by_date(&path("in/a.txt"), date, DateFormat::Day, false),
        Err(OrganizeError::DateOutOfRange)
    );
}

#[test]
fn the_time_of_an_entry_is_read_in_local_time() {
    let o = organizer("in", "out");
    let e = file("in/a.txt");
    assert_eq!(
        o.move_entry_by_date(&e, DateFormat::Year, false),
        Ok(plan(MoveKind::Relocate, "in/a.txt", "out/2024", "out/2024/a.txt"))
    );
    assert_eq!(
        o.move_entry_by_date(&e, DateFormat::Month, false),
        Ok(plan(MoveKind::Relocate, "in/a.txt", "out/2024-03", "out/2024-03/a.txt"))
    );
    let by_day = o.move_entry_by_date(&e, DateFormat::Day, false).unwrap();
    let folder = by_day.dir.parts[1].as_str();
    assert!(["2024-03-14", "2024-03-15", "2024-03-16"].contains(&folder));
    assert_eq!(by_day.to, by_day.dir.join("a.txt"));
}

#[test]
fn the_start_of_1970_falls_near_the_turn_of_the_year() {
    let o = organizer("in", "out");
    let e = FileEntry {
        path: path("in/old.txt"),
        kind: EntryKind::File,
        metadata: Ok(FileMeta { size: 0, modified: Timestamp { secs: 0, nanos: 0 } }),
    };
    let by_day = o.move_entry_by_date(&e, DateFormat::Day, true).unwrap();
    let folder = by_day.dir.parts[1].as_str();
    assert!(["1969-12-31", "1970-01-01"].contains(&folder));
}

#[test]
fn a_time_beyond_the_calendar_is_an_error() {
    let o = organizer("in", "out");
    let e = FileEntry {
        path: path("in/a.txt"),
        kind: EntryKind::File,
        metadata: Ok(FileMeta { size: 0, modified: Timestamp { secs: i64::MAX, nanos: 0 } }),
    };
    assert_eq!(
        o.move_entry_by_date(&e, DateFormat::Day, false),
        Err(OrganizeError::DateOutOfRange)
    );
}

#[test]
fn an_unread_entry_is_an_error_for_that_file_only() {
    let o = organizer("in", "out");
    let entries = vec![
        FileEntry {
            path: path("in/a.txt"),
            kind: EntryKind::File,
            metadata: Err("permission denied".to_string()),
        },
        file("in/b.txt"),
    ];
    let steps = o.organize_by_date(&entries, "year", false).unwrap();
    assert_eq!(steps.len(), 2);
    assert_eq!(steps[0], FileStep { entry: 0, plan: Err(OrganizeError::MetadataUnavailable) });
    assert_eq!(
        steps[1],
        FileStep {
            entry: 1,
            plan: Ok(plan(MoveKind::Relocate, "in/b.txt", "out/2024", "out/2024/b.txt")),
        }
    );
    assert_eq!(
        steps[0].settle(&entries[0], None),
        MoveOutcome::Error(path("in/a.txt"), "permission denied".to_string())
    );
}

#[test]
fn an_unknown_date_format_stops_the_request() {
    let o = organizer("in", "out");
    let entries = vec![file("in/a.txt")];
    assert_eq!(o.organize_by_date(&entries, "week", false), Err(OrganizeError::InvalidDateFormat));
    assert_eq!(o.organize_by_date(&entries, "", true), Err(OrganizeError::InvalidDateFormat));
    assert_eq!(o.organize_by_date(&Vec::new(), "Year", false), Err(OrganizeError::InvalidDateFormat));
    assert_eq!(o.organize_by_date(&Vec::new(), "year", false), Ok(Vec::new()));
}

#[test]
fn a_step_settles_into_what_became_of_the_file() {
    let e = file("in/a.txt");
    let step = |kind| FileStep {
        entry: 0,
        plan: Ok(plan(kind, "in/a.txt", "out/Documents", "out/Documents/a.txt")),
    };
    assert_eq!(step(MoveKind::Skip).settle(&e, None), MoveOutcome::Skipped);
    assert_eq!(
        step(MoveKind::Preview).settle(&e, None),
        MoveOutcome::Moved(path("in/a.txt"), path("out/Documents/a.txt"))
    );
    assert_eq!(
        step(MoveKind::Relocate).settle(&e, None),
        MoveOutcome::Moved(path("in/a.txt"), path("out/Documents/a.txt"))
    );
    assert_eq!(
        step(MoveKind::Relocate).settle(&e, Some("disk full".to_string())),
        MoveOutcome::Error(path("in/a.txt"), "disk full".to_string())
    );
    let failed = FileStep { entry: 0, plan: Err(OrganizeError::MissingFileName) };
    assert_eq!(
        failed.settle(&e, None),
        MoveOutcome::Error(path("in/a.txt"), "Failed to get file name".to_string())
    );
    let unread = FileStep { entry: 0, plan: Err(OrganizeError::MetadataUnavailable) };
    assert_eq!(
        unread.settle(&e, None),
        MoveOutcome::Error(path("in/a.txt"), "Failed to read file metadata".to_string())
    );
}

#[test]
fn every_error_has_its_message() {
    assert_eq!(OrganizeError::MissingFileName.message(), "Failed to get file name");
    assert_eq!(OrganizeError::InvalidDateFormat.message(), "Invalid date format");
    assert_eq!(OrganizeError::MetadataUnavailable.message(), "Failed to read file metadata");
    assert_eq!(OrganizeError::DateOutOfRange.message(), "File time is out of range");
    assert_eq!(OrganizeError::TotalSizeOverflow.message(), "Total size is too large");
}

#[test]
fn a_run_counts_moves_and_errors() {
    let outcomes = vec![
        MoveOutcome::Moved(path("a"), path("x/a")),
        MoveOutcome::Skipped,
        MoveOutcome::Error(path("b"), "no".to_string()),
        MoveOutcome::Moved(path("c"), path("x/c")),
        MoveOutcome::Skipped,
        MoveOutcome::Moved(path("d"), path("x/d")),
    ];
    assert_eq!(RunSummary::tally(&outcomes), RunSummary { moved: 3, errors: 1 });
    assert_eq!(RunSummary::tally(&Vec::new()), RunSummary { moved: 0, errors: 0 });
}
