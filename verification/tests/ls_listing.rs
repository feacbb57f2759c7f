use coreutils::ls::entry::DirectoryEntry;
use coreutils::ls::entry::FileKind;
use coreutils::ls::entry::Metadata;
use coreutils::ls::entry::Stamp;
use coreutils::ls::listing::dir;
use coreutils::ls::listing::exit_severity;
use coreutils::ls::listing::list;
use coreutils::ls::listing::ChildRead;
use coreutils::ls::listing::DirectoryRead;
use coreutils::ls::listing::ListingError;
use coreutils::ls::listing::Severity;
use coreutils::ls::options::keep_visible;
use coreutils::ls::options::shown;
use coreutils::ls::options::DisplayMode;
use coreutils::ls::options::ListingOptions;
use coreutils::ls::options::SortKey;
use coreutils::ls::options::Visibility;
use coreutils::ls::order::arrange;
use coreutils::ls::order::comes_before;
use coreutils::ls::order::later;
use coreutils::ls::order::render;
use coreutils::ls::order::sort_entries;
use coreutils::ls::order::text_precedes;
use coreutils::ls::order::turn_round;

fn entry(name: &str, kind: FileKind, len: u64, modified: i64, accessed: i64) -> DirectoryEntry {
    DirectoryEntry {
        name: Some(name.to_string()),
        kind: Some(kind),
        metadata: Some(Metadata {
            kind,
            readonly: false,
            len,
            modified: Some(Stamp { secs: modified, nanos: 0 }),
            accessed: Some(Stamp { secs: accessed, nanos: 0 }),
        }),
        owner: None,
    }
}

fn file(name: &str) -> DirectoryEntry {
    entry(name, FileKind::Regular, 1, 0, 0)
}

fn names(entries: &[DirectoryEntry]) -> Vec<String> {
    entries.iter().map(|e| e.shown_name().to_string()).collect()
}

fn messages(errors: &[ListingError]) -> Vec<String> {
    errors.iter().map(|e| e.message()).collect()
}

fn plain(display_mode: DisplayMode) -> ListingOptions {
    ListingOptions {
        display_mode,
        visibility: Visibility::All,
        sort_key: None,
        reverse: false,
        recursive: false,
        directory_as_entry: false,
    }
}

fn children(items: Vec<DirectoryEntry>) -> DirectoryRead {
    DirectoryRead::Children(items.into_iter().map(ChildRead::Found).collect())
}

#[test]
fn normal_dir() {
    let read = children(vec![
        file("ascii.txt"),
        file("hello.bin"),
        entry("hidden", FileKind::Directory, 0, 0, 0),
        entry("link", FileKind::SymbolicLink, 0, 0, 0),
        entry("mklink", FileKind::Directory, 0, 0, 0),
        entry("normal", FileKind::Directory, 0, 0, 0),
        file("notouch.txt"),
    ]);
    let entries: Vec<DirectoryEntry> = dir(read).unwrap().entries;
    let names: Vec<String> = names(&entries);

    let expected: Vec<&str> = vec![
        "ascii.txt",
        "hello.bin",
        "hidden",
        "link",
        "mklink",
        "normal",
        "notouch.txt",
    ];
    assert_eq!(names, expected)
}

#[test]
fn unreadable_children_are_passed_over() {
    let read = DirectoryRead::Children(vec![
        ChildRead::Found(file("a")),
        ChildRead::Failed("gone".to_string()),
        ChildRead::Found(file("b")),
        ChildRead::Failed("denied".to_string()),
    ]);
    let enumeration = dir(read).unwrap();
    assert_eq!(names(&enumeration.entries), vec!["a", "b"]);
    assert_eq!(messages(&enumeration.skipped), vec!["gone", "denied"]);
    assert!(enumeration.skipped.iter().all(|e| matches!(e, ListingError::EntrySkipped(_))));
}

#[test]
fn unreadable_directory_is_an_error() {
    match dir(DirectoryRead::Unreadable("no such path".to_string())) {
        Err(ListingError::DirectoryUnreadable(reason)) => assert_eq!(reason, "no such path"),
        other => panic!("unexpected outcome {:?}", other),
    }
    assert_eq!(ListingError::EntrySkipped("gone".to_string()).message(), "gone");
    let error = ListingError::DirectoryUnreadable("no such path".to_string());
    assert_eq!(error.message(), "no such path");
}

#[test]
fn rows_match_children_read() {
    let read = DirectoryRead::Children(vec![
        ChildRead::Found(file("a")),
        ChildRead::Failed("gone".to_string()),
        ChildRead::Found(file(".b")),
        ChildRead::Found(file("c")),
    ]);
    let result = list(read, &plain(DisplayMode::Long));
    assert_eq!(result.text.lines().count(), 3);
    assert_eq!(messages(&result.errors), vec!["gone"]);
    assert_eq!(result.severity, Severity::Normal);
}

#[test]
fn missing_path_among_valid_ones() {
    let options = plain(DisplayMode::OnePerLine);
    let missing = list(DirectoryRead::Unreadable("nowhere: not found".to_string()), &options);
    let valid = list(children(vec![file("a"), file("b")]), &options);
    assert_eq!(missing.text, "");
    assert_eq!(messages(&missing.errors), vec!["nowhere: not found"]);
    assert!(matches!(missing.errors[0], ListingError::DirectoryUnreadable(_)));
    assert_eq!(missing.severity, Severity::NonFatal);
    assert_eq!(valid.text, "a\nb\n");
    assert!(valid.errors.is_empty());
    assert_eq!(valid.severity, Severity::Normal);
    let results = vec![valid, missing];
    assert_eq!(exit_severity(&results), Severity::NonFatal);
    assert_eq!(exit_severity(&results).code(), 1);
}

#[test]
fn severities() {
    assert_eq!(Severity::Normal.code(), 0);
    assert_eq!(Severity::NonFatal.code(), 1);
    assert_eq!(Severity::Fatal.code(), 2);
    assert_eq!(Severity::Normal.max(Severity::NonFatal), Severity::NonFatal);
    assert_eq!(Severity::Fatal.max(Severity::NonFatal), Severity::Fatal);
    assert_eq!(Severity::Normal.max(Severity::Normal), Severity::Normal);
    assert_eq!(exit_severity(&Vec::new()), Severity::Normal);
}

#[test]
fn visibility() {
    assert!(shown(Visibility::Default, "a"));
    assert!(shown(Visibility::Default, ""));
    assert!(!shown(Visibility::Default, ".a"));
    assert!(!shown(Visibility::Default, "."));
    assert!(shown(Visibility::All, ".."));
    assert!(shown(Visibility::AlmostAll, ".a"));
    assert!(shown(Visibility::AlmostAll, "..."));
    assert!(!shown(Visibility::AlmostAll, "."));
    assert!(!shown(Visibility::AlmostAll, ".."));
    let entries = vec![file("."), file(".."), file(".git"), file("src")];
    assert_eq!(names(&keep_visible(&entries, Visibility::Default)), vec!["src"]);
    assert_eq!(names(&keep_visible(&entries, Visibility::AlmostAll)), vec![".git", "src"]);
    assert_eq!(names(&keep_visible(&entries, Visibility::All)), vec![".", "..", ".git", "src"]);
}

#[test]
fn text_order() {
    assert!(text_precedes("a", "b"));
    assert!(!text_precedes("b", "a"));
    assert!(!text_precedes("a", "a"));
    assert!(text_precedes("", "a"));
    assert!(!text_precedes("", ""));
    assert!(text_precedes("a", "ab"));
    assert!(text_precedes("B", "a"));
    assert!(text_precedes("z", "\u{e9}"));
    let words = ["", "a", "ab", "B", "\u{e9}", "z", "\u{1f600}", "a\u{1f600}", "ab "];
    for x in words {
        for y in words {
            assert_eq!(text_precedes(x, y), x < y, "for {:?} and {:?}", x, y);
        }
    }
}

#[test]
fn time_order() {
    let early = Some(Stamp { secs: -5, nanos: 7 });
    let late = Some(Stamp { secs: -5, nanos: 8 });
    let later_still = Some(Stamp { secs: 0, nanos: 0 });
    assert!(later(late, early));
    assert!(!later(early, late));
    assert!(later(later_still, late));
    assert!(later(early, None));
    assert!(!later(None, early));
    assert!(!later(None, None));
    assert!(!later(late, late));
    assert!(later(Some(Stamp { secs: i64::MIN, nanos: 0 }), None));
}

#[test]
fn sorting() {
    let entries = vec![
        entry("m", FileKind::Regular, 5, 30, 1),
        entry("a", FileKind::Regular, 9, 10, 3),
        entry("z", FileKind::Regular, 5, 20, 2),
        entry("b", FileKind::Directory, 1, 30, 3),
    ];
    assert_eq!(names(&sort_entries(&entries, SortKey::ByName)), vec!["a", "b", "m", "z"]);
    assert_eq!(names(&sort_entries(&entries, SortKey::BySize)), vec!["a", "m", "z", "b"]);
    assert_eq!(names(&sort_entries(&entries, SortKey::ByModifiedTime)), vec!["m", "b", "z", "a"]);
    assert_eq!(names(&sort_entries(&entries, SortKey::ByAccessTime)), vec!["a", "b", "z", "m"]);
    assert_eq!(names(&turn_round(&entries)), vec!["b", "z", "a", "m"]);
    assert!(comes_before(SortKey::BySize, &entries[1], &entries[0]));
    assert!(!comes_before(SortKey::BySize, &entries[0], &entries[2]));
    assert!(sort_entries(&Vec::new(), SortKey::ByName).is_empty());
}

#[test]
fn unknown_parts_sort_last() {
    let mut bare = file("bare");
    bare.metadata = None;
    let entries = vec![bare, entry("old", FileKind::Regular, 0, -100, -100), entry("new", FileKind::Regular, 3, 100, 100)];
    assert_eq!(names(&sort_entries(&entries, SortKey::ByModifiedTime)), vec!["new", "old", "bare"]);
    assert_eq!(names(&sort_entries(&entries, SortKey::BySize)), vec!["new", "bare", "old"]);
}

#[test]
fn arranging_and_rendering() {
    let entries = vec![file("b"), file(".x"), file("c"), file("a")];
    let mut options = plain(DisplayMode::OnePerLine);
    assert_eq!(render(&entries, &options), "b\n.x\nc\na\n");
    options.visibility = Visibility::Default;
    assert_eq!(render(&entries, &options), "b\nc\na\n");
    options.reverse = true;
    assert_eq!(render(&entries, &options), "a\nc\nb\n");
    options.sort_key = Some(SortKey::ByName);
    assert_eq!(render(&entries, &options), "c\nb\na\n");
    options.reverse = false;
    assert_eq!(names(&arrange(&entries, &options)), vec!["a", "b", "c"]);
    options.display_mode = DisplayMode::Long;
    let long = render(&entries, &options);
    let rows: Vec<&str> = long.lines().collect();
    assert_eq!(rows.len(), 3);
    assert!(rows[0].ends_with(" a") && rows[1].ends_with(" b") && rows[2].ends_with(" c"));
}
