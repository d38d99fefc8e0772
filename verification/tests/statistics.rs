use forg::dates::Timestamp;
use forg::organizer::{EntryKind, FileEntry, FileMeta, FileOrganizer, OrganizeError};
use forg::paths::FilePath;
use forg::stats::{collect, label_of, Bucket, Statistics};

fn path(text: &str) -> FilePath {
    FilePath::new(text.split('/').map(String::from).collect())
}

fn sized(text: &str, kind: EntryKind, size: u64) -> FileEntry {
    FileEntry {
        path: path(text),
        kind,
        metadata: Ok(FileMeta { size, modified: Timestamp { secs: 0, nanos: 0 } }),
    }
}

fn file(text: &str, size: u64) -> FileEntry {
    sized(text, EntryKind::File, size)
}

fn bucket(label: &str, count: usize, size: u64) -> Bucket {
    Bucket { label: label.to_string(), count, size }
}

fn organizer() -> FileOrganizer {
    FileOrganizer::new(path("root"), path("root"))
}

#[test]
fn files_are_counted_by_lowercase_extension() {
    let entries = vec![
        file("root/a.txt", 10),
        sized("root/sub", EntryKind::Directory, 4096),
        file("root/sub/b.TXT", 20),
        file("root/c.jpg", 5),
        file("root/sub/d.Txt", 30),
        file("root/e.jpg", 7),
        file("root/README", 1),
        sized("root/link.txt", EntryKind::Other, 9),
    ];
    assert_eq!(
        organizer().show_stats(&entries),
        Ok(Statistics {
            total_files: 6,
            total_size: 73,
            buckets: vec![bucket("txt", 3, 60), bucket("jpg", 2, 12), bucket("no extension", 1, 1)],
        })
    );
}

#[test]
fn a_file_is_labelled_by_its_extension() {
    assert_eq!(label_of(&path("a/b.PDF")), "pdf");
    assert_eq!(label_of(&path("a/b")), "no extension");
    assert_eq!(label_of(&path("a/.git")), "no extension");
    assert_eq!(label_of(&path("a/b.")), "");
    assert_eq!(label_of(&path("a/b.ÉTÉ")), "été");
}

#[test]
fn the_totals_are_the_sums_over_the_buckets() {
    let mut entries = Vec::new();
    let extensions = ["a", "b", "c", "d", "e", "f", "g"];
    for i in 0..500u64 {
        let extension = extensions[(i * i % 7) as usize];
        entries.push(file(&format!("root/f{}.{}", i, extension), i * 31 % 1000));
    }
    let stats = collect(&entries).unwrap();
    assert_eq!(stats.total_files, 500);
    assert_eq!(stats.total_files, stats.buckets.iter().map(|b| b.count).sum::<usize>());
    assert_eq!(stats.total_size, stats.buckets.iter().map(|b| b.size).sum::<u64>());
    assert_eq!(stats.total_size, entries.iter().map(|e| e.metadata.as_ref().unwrap().size).sum());
}

#[test]
fn buckets_with_more_files_come_first() {
    let mut entries = Vec::new();
    for (extension, count) in [("few", 2), ("most", 9), ("some", 5), ("one", 1)] {
        for i in 0..count {
            entries.push(file(&format!("root/{}{}.{}", extension, i, extension), 1));
        }
    }
    let stats = collect(&entries).unwrap();
    assert_eq!(
        stats.buckets,
        vec![bucket("most", 9, 9), bucket("some", 5, 5), bucket("few", 2, 2), bucket("one", 1, 1)]
    );
    assert_eq!(stats.shown(), 4);
    assert_eq!(stats.omitted(), 0);
}

#[test]
fn a_report_shows_ten_buckets_and_counts_the_rest() {
    let mut entries = Vec::new();
    for kind in 0..13u64 {
        for i in 0..=kind {
            entries.push(file(&format!("root/f{}.e{}", i, kind), kind));
        }
    }
    let stats = collect(&entries).unwrap();
    assert_eq!(stats.buckets.len(), 13);
    assert_eq!(stats.shown(), 10);
    assert_eq!(stats.omitted(), 3);
    assert_eq!(stats.buckets[0], bucket("e12", 13, 156));
    assert_eq!(stats.buckets[9], bucket("e3", 4, 12));
    assert_eq!(stats.buckets[12], bucket("e0", 1, 0));
    let ten: Vec<FileEntry> = (0..10).map(|k| file(&format!("root/f.e{}", k), 1)).collect();
    let stats = collect(&ten).unwrap();
    assert_eq!(stats.shown(), 10);
    assert_eq!(stats.omitted(), 0);
    let eleven: Vec<FileEntry> = (0..11).map(|k| file(&format!("root/f.e{}", k), 1)).collect();
    let stats = collect(&eleven).unwrap();
    assert_eq!(stats.shown(), 10);
    assert_eq!(stats.omitted(), 1);
}

#[test]
fn a_scan_without_files_has_empty_statistics() {
    let expected = Ok(Statistics { total_files: 0, total_size: 0, buckets: Vec::new() });
    assert_eq!(collect(&Vec::new()), expected);
    assert_eq!(collect(&vec![sized("root/d", EntryKind::Directory, 5)]), expected);
    let stats = collect(&Vec::new()).unwrap();
    assert_eq!(stats.shown(), 0);
    assert_eq!(stats.omitted(), 0);
}

#[test]
fn an_unread_file_stops_the_summary() {
    let entries = vec![
        file("root/a.txt", 1),
        FileEntry { path: path("root/b.txt"), kind: EntryKind::File, metadata: Err("gone".into()) },
    ];
    assert_eq!(collect(&entries), Err(OrganizeError::MetadataUnavailable));
    let unread_directory = vec![
        file("root/a.txt", 1),
        FileEntry { path: path("root/d"), kind: EntryKind::Directory, metadata: Err("x".into()) },
    ];
    assert_eq!(
        collect(&unread_directory),
        Ok(Statistics { total_files: 1, total_size: 1, buckets: vec![bucket("txt", 1, 1)] })
    );
}

#[test]
fn sizes_beyond_what_a_total_holds_stop_the_summary() {
    let entries = vec![file("root/a.bin", u64::MAX), file("root/b.bin", 1)];
    assert_eq!(collect(&entries), Err(OrganizeError::TotalSizeOverflow));
    let fits = vec![file("root/a.bin", u64::MAX - 1), file("root/b.img", 1)];
    assert_eq!(
        collect(&fits),
        Ok(Statistics {
            total_files: 2,
            total_size: u64::MAX,
            buckets: vec![bucket("bin", 1, u64::MAX - 1), bucket("img", 1, 1)],
        })
    );
}
