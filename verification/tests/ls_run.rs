use coreutils::ls::entry::DirectoryEntry;
use coreutils::ls::entry::FileKind;
use coreutils::ls::listing::ChildRead;
use coreutils::ls::listing::DirectoryRead;
use coreutils::ls::listing::Severity;
use coreutils::ls::options::DisplayMode;
use coreutils::ls::options::ListingOptions;
use coreutils::ls::options::SortKey;
use coreutils::ls::options::Visibility;
use coreutils::ls::run::duplicate_texts;
use coreutils::ls::run::effective_options;
use coreutils::ls::run::goes_down;
use coreutils::ls::run::Request;
use coreutils::ls::run::Run;
use coreutils::ls::run::Target;

fn item(name: &str, kind: FileKind) -> DirectoryEntry {
    DirectoryEntry { name: Some(name.to_string()), kind: Some(kind), metadata: None, owner: None }
}

fn children(items: Vec<DirectoryEntry>) -> DirectoryRead {
    DirectoryRead::Children(items.into_iter().map(ChildRead::Found).collect())
}

fn options() -> ListingOptions {
    ListingOptions {
        display_mode: DisplayMode::OnePerLine,
        visibility: Visibility::Default,
        sort_key: None,
        reverse: false,
        recursive: false,
        directory_as_entry: false,
    }
}

fn paths(all: &[&str]) -> Vec<String> {
    all.iter().map(|s| s.to_string()).collect()
}

fn read_target(request: Request) -> Target {
    match request {
        Request::ReadDirectory(target) => target,
        other => panic!("unexpected request {:?}", other),
    }
}

#[test]
fn missing_path_does_not_stop_the_run() {
    let options = options();
    let mut run = Run::new(paths(&["nowhere", "here"]));

    let first = read_target(run.next(&options));
    assert_eq!(first.base, "nowhere");
    let result = run.record(&first, DirectoryRead::Unreadable("nowhere: not found".to_string()), &options);
    assert_eq!(result.text, "");
    assert_eq!(result.errors.len(), 1);
    assert_eq!(result.errors[0].message(), "nowhere: not found");
    assert_eq!(result.severity, Severity::NonFatal);
    assert_eq!(run.severity, Severity::NonFatal);

    let second = read_target(run.next(&options));
    assert_eq!(second.base, "here");
    let result = run.record(&second, children(vec![item("a", FileKind::Regular), item("b", FileKind::Directory)]), &options);
    assert_eq!(result.text, "a\nb\n");
    assert!(result.errors.is_empty());
    assert_eq!(result.severity, Severity::Normal);

    match run.next(&options) {
        Request::Finish(severity) => {
            assert_eq!(severity, Severity::NonFatal);
            assert_eq!(severity.code(), 1);
        }
        other => panic!("unexpected request {:?}", other),
    }
}

#[test]
fn run_without_trouble_is_normal() {
    let options = options();
    let mut run = Run::new(paths(&["here"]));
    let target = read_target(run.next(&options));
    run.record(&target, children(vec![item("a", FileKind::Regular)]), &options);
    match run.next(&options) {
        Request::Finish(severity) => assert_eq!(severity.code(), 0),
        other => panic!("unexpected request {:?}", other),
    }
    match run.next(&options) {
        Request::Finish(severity) => assert_eq!(severity, Severity::Normal),
        other => panic!("unexpected request {:?}", other),
    }
}

#[test]
fn run_without_paths_finishes_at_once() {
    let mut run = Run::new(Vec::new());
    match run.next(&options()) {
        Request::Finish(severity) => assert_eq!(severity, Severity::Normal),
        other => panic!("unexpected request {:?}", other),
    }
}

#[test]
fn recursion_goes_down_before_it_goes_on() {
    let mut options = options();
    options.recursive = true;
    options.sort_key = Some(SortKey::ByName);
    let mut run = Run::new(paths(&["top", "other"]));

    let top = read_target(run.next(&options));
    let result = run.record(
        &top,
        children(vec![
            item("z", FileKind::Directory),
            item("file", FileKind::Regular),
            item(".hidden", FileKind::Directory),
            item("link", FileKind::SymbolicLink),
            item("a", FileKind::Directory),
        ]),
        &options,
    );
    assert_eq!(result.text, "a\nfile\nlink\nz\n");

    let a = read_target(run.next(&options));
    assert_eq!(a.base, "top");
    assert_eq!(a.descent, vec!["a"]);
    run.record(&a, children(vec![item("deep", FileKind::Directory)]), &options);

    let deep = read_target(run.next(&options));
    assert_eq!(deep.base, "top");
    assert_eq!(deep.descent, vec!["a", "deep"]);
    run.record(&deep, DirectoryRead::Unreadable("denied".to_string()), &options);

    let z = read_target(run.next(&options));
    assert_eq!(z.descent, vec!["z"]);
    run.record(&z, children(Vec::new()), &options);

    let other = read_target(run.next(&options));
    assert_eq!(other.base, "other");
    assert!(other.descent.is_empty());
    run.record(&other, children(Vec::new()), &options);

    match run.next(&options) {
        Request::Finish(severity) => assert_eq!(severity, Severity::NonFatal),
        request => panic!("unexpected request {:?}", request),
    }
}

#[test]
fn recursion_passes_over_pseudo_entries() {
    assert!(goes_down(&item("dir", FileKind::Directory)));
    assert!(goes_down(&item("...", FileKind::Directory)));
    assert!(!goes_down(&item(".", FileKind::Directory)));
    assert!(!goes_down(&item("..", FileKind::Directory)));
    assert!(!goes_down(&item("f", FileKind::Regular)));
    assert!(!goes_down(&item("l", FileKind::SymbolicLink)));
    let nameless = DirectoryEntry { name: None, kind: Some(FileKind::Directory), metadata: None, owner: None };
    assert!(!goes_down(&nameless));
    assert!(!goes_down(&item("", FileKind::Directory)));

    let mut options = options();
    options.recursive = true;
    options.visibility = Visibility::All;
    let mut run = Run::new(paths(&["top"]));
    let top = read_target(run.next(&options));
    run.record(&top, children(vec![item(".", FileKind::Directory), item("..", FileKind::Directory), item(".git", FileKind::Directory)]), &options);
    let next = read_target(run.next(&options));
    assert_eq!(next.descent, vec![".git"]);
    assert!(run.pending.is_empty());
}

#[test]
fn paths_as_entries() {
    let mut options = options();
    options.directory_as_entry = true;
    options.recursive = true;
    assert_eq!(effective_options(&options).visibility, Visibility::All);
    let mut run = Run::new(paths(&[".config"]));
    let target = match run.next(&options) {
        Request::Describe(target) => target,
        other => panic!("unexpected request {:?}", other),
    };
    assert_eq!(target.base, ".config");
    let result = run.record(&target, children(vec![item(".config", FileKind::Directory)]), &options);
    assert_eq!(result.text, ".config\n");
    assert!(run.pending.is_empty());
    options.directory_as_entry = false;
    assert_eq!(effective_options(&options), options);
}

#[test]
fn targets() {
    let root = Target::root("base".to_string());
    assert_eq!(root.base, "base");
    assert!(root.descent.is_empty());
    let child = root.child("one").child("two");
    assert_eq!(child.base, "base");
    assert_eq!(child.descent, vec!["one", "two"]);
    assert_eq!(duplicate_texts(&child.descent), child.descent);
}
