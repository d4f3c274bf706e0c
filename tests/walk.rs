use path_walker::text::{chars_of, contains_text, replace_text};
use path_walker::{
    path_is_ignored, walk_listing, Entry, EntryKind, Probe, Visit, WalkAction, WalkError,
    WalkEvent, WalkRequest, Walker,
};

fn strings(items: &[&str]) -> Vec<String> {
    items.iter().map(|s| s.to_string()).collect()
}

fn request(source: &str, destination: &str, ignored: &[&str], label: &str) -> WalkRequest {
    WalkRequest::new(
        source.to_string(),
        destination.to_string(),
        strings(ignored),
        label.to_string(),
    )
}

fn node(path: &str, probe: Probe) -> Visit {
    Visit::Node(path.to_string(), probe)
}

fn paths(entries: &[Entry]) -> Vec<String> {
    entries.iter().map(|e| e.path.clone()).collect()
}

#[test]
fn ignore_entry_matches_as_substring() {
    let ignored = strings(&["build-target"]);
    assert!(path_is_ignored("/root/build-target/x.txt", &ignored));
    assert!(path_is_ignored("/root/x/build-target-old/y.txt", &ignored));
    assert!(!path_is_ignored("/root/build/target.txt", &ignored));
    assert!(!path_is_ignored("/root/src/main.rs", &ignored));
}

#[test]
fn ignore_checks_every_entry() {
    let ignored = strings(&["node_modules", "build-target"]);
    assert!(path_is_ignored("/app/node_modules", &ignored));
    assert!(path_is_ignored("/app/build-target/", &ignored));
    assert!(!path_is_ignored("/app/src/index.js", &ignored));
}

#[test]
fn empty_ignore_list_ignores_nothing() {
    assert!(!path_is_ignored("/root/anything", &Vec::new()));
    assert!(!path_is_ignored("", &Vec::new()));
}

#[test]
fn empty_ignore_entry_matches_every_path() {
    let ignored = strings(&[""]);
    assert!(path_is_ignored("/root/a", &ignored));
    assert!(path_is_ignored("", &ignored));
}

#[test]
fn ignore_entry_longer_than_path() {
    let ignored = strings(&["/root/a/b/c"]);
    assert!(!path_is_ignored("/root/a", &ignored));
}

#[test]
fn contains_finds_substrings() {
    assert!(contains_text("hello world", "lo w"));
    assert!(contains_text("hello", "hello"));
    assert!(contains_text("hello", ""));
    assert!(!contains_text("hello", "hellO"));
    assert!(!contains_text("", "a"));
    assert!(contains_text("ééa", "éa"));
}

#[test]
fn chars_of_keeps_order() {
    assert_eq!(chars_of("aé/b"), vec!['a', 'é', '/', 'b']);
    assert!(chars_of("").is_empty());
}

#[test]
fn remap_replaces_source_prefix() {
    let req = request("/a/b", "/x/y", &[], "web");
    assert_eq!(req.remap_path("/a/b/c/d.txt"), "/x/y/c/d.txt");
}

#[test]
fn remap_replaces_every_occurrence() {
    let req = request("/a/b", "/x/y", &[], "web");
    assert_eq!(req.remap_path("/a/b/a/b.txt"), "/x/y/x/y.txt");
}

#[test]
fn replace_matches_std_replace() {
    let cases: [(&str, &str, &str); 8] = [
        ("aaa", "aa", "b"),
        ("ab", "", "x"),
        ("", "", "x"),
        ("abc", "z", "y"),
        ("abcabc", "abc", ""),
        ("/src/", "/src/", "/out/"),
        ("xéx", "é", "ee"),
        ("ab", "abc", "q"),
    ];
    for (s, from, to) in cases {
        assert_eq!(replace_text(s, from, to), s.replace(from, to));
    }
    assert_eq!(replace_text("aaa", "aa", "b"), "ba");
    assert_eq!(replace_text("ab", "", "x"), "xaxbx");
}

#[test]
fn entry_carries_remapped_path() {
    let req = request("/src", "/out", &[], "web");
    let e = req.entry("/src/a.txt".to_string(), EntryKind::File);
    assert_eq!(e.path, "/src/a.txt");
    assert_eq!(e.kind, EntryKind::File);
    assert_eq!(e.remapped, Some("/out/a.txt".to_string()));
}

#[test]
fn empty_destination_means_no_remap() {
    let req = request("/src", "", &[], "web");
    let e = req.entry("/src/a.txt".to_string(), EntryKind::Directory);
    assert_eq!(e.remapped, None);
}

#[test]
fn kind_labels() {
    assert_eq!(EntryKind::File.label(), "file");
    assert_eq!(EntryKind::Directory.label(), "directory");
}

#[test]
fn entry_lines() {
    let req = request("/src", "/out", &[], "web");
    let f = req.entry("/src/a.txt".to_string(), EntryKind::File);
    assert_eq!(f.line(), "File: /src/a.txt New Path: /out/a.txt");
    let d = req.entry("/src/lib".to_string(), EntryKind::Directory);
    assert_eq!(d.line(), "Directory: /src/lib New Directory: /out/lib");
    let plain = request("/src", "", &[], "web").entry("/src".to_string(), EntryKind::Directory);
    assert_eq!(plain.line(), "Directory: /src");
}

#[test]
fn classification_follows_status() {
    let req = request("/t", "", &[], "web");
    let visits = vec![
        node("/t", Probe::Directory),
        node("/t/a.txt", Probe::File),
        node("/t/sub", Probe::Directory),
        node("/t/sub/b.txt", Probe::File),
    ];
    let report = walk_listing(&req, &visits);
    assert_eq!(report.error, None);
    let kinds: Vec<EntryKind> = report.entries.iter().map(|e| e.kind).collect();
    assert_eq!(
        kinds,
        vec![EntryKind::Directory, EntryKind::File, EntryKind::Directory, EntryKind::File]
    );
    let labels: Vec<String> = report.entries.iter().map(|e| e.kind.label()).collect();
    assert_eq!(labels, strings(&["directory", "file", "directory", "file"]));
}

#[test]
fn each_path_reported_once_unless_ignored() {
    let req = request("/r", "/o", &["node_modules", "build-target"], "web");
    let visits = vec![
        node("/r", Probe::Directory),
        node("/r/a.txt", Probe::File),
        node("/r/build-target", Probe::Directory),
        node("/r/build-target/x.txt", Probe::File),
        node("/r/src", Probe::Directory),
        node("/r/src/main.rs", Probe::File),
    ];
    let report = walk_listing(&req, &visits);
    assert_eq!(report.error, None);
    assert_eq!(paths(&report.entries), strings(&["/r", "/r/a.txt", "/r/src", "/r/src/main.rs"]));
    assert_eq!(report.entries[3].remapped, Some("/o/src/main.rs".to_string()));
}

#[test]
fn repeated_walk_gives_same_report() {
    let visits = vec![
        node("/r", Probe::Directory),
        node("/r/node_modules", Probe::Directory),
        node("/r/a", Probe::File),
    ];
    let first = walk_listing(&request("/r", "/o", &["node_modules"], "web"), &visits);
    let second = walk_listing(&request("/r", "/o", &["node_modules"], "mobile"), &visits);
    assert_eq!(first.entries, second.entries);
    assert_eq!(first.error, second.error);
    assert_eq!(first.entries.len(), 2);
}

#[test]
fn ignored_directory_children_judged_alone() {
    let req = request("/root", "", &["node_modules"], "web");
    let visits = vec![
        node("/root", Probe::Directory),
        node("/root/node_modules", Probe::Directory),
        node("/root/node_modules/pkg", Probe::Directory),
        node("/root/node_modules/pkg/index.js", Probe::File),
        node("/root/app.js", Probe::File),
    ];
    let report = walk_listing(&req, &visits);
    assert_eq!(report.error, None);
    assert_eq!(paths(&report.entries), strings(&["/root", "/root/app.js"]));
}

#[test]
fn vanished_path_ends_walk() {
    let req = request("/r", "", &[], "web");
    let visits = vec![
        node("/r", Probe::Directory),
        node("/r/a", Probe::File),
        node("/r/gone.txt", Probe::Missing),
        node("/r/b", Probe::File),
    ];
    let report = walk_listing(&req, &visits);
    assert_eq!(paths(&report.entries), strings(&["/r", "/r/a"]));
    assert_eq!(report.error, Some(WalkError::StatusQuery("/r/gone.txt".to_string())));
}

#[test]
fn vanished_ignored_path_is_never_queried() {
    let req = request("/r", "", &["tmp"], "web");
    let visits = vec![node("/r/tmp.txt", Probe::Missing), node("/r/b", Probe::File)];
    let report = walk_listing(&req, &visits);
    assert_eq!(report.error, None);
    assert_eq!(paths(&report.entries), strings(&["/r/b"]));
}

#[test]
fn unreadable_directory_ends_walk() {
    let req = request("/r", "", &[], "web");
    let visits = vec![
        node("/r", Probe::Directory),
        Visit::Unreadable("/r/locked".to_string()),
        node("/r/b", Probe::File),
    ];
    let report = walk_listing(&req, &visits);
    assert_eq!(paths(&report.entries), strings(&["/r"]));
    assert_eq!(report.error, Some(WalkError::Traversal("/r/locked".to_string())));
}

#[test]
fn other_nodes_are_not_reported() {
    let req = request("/r", "", &[], "web");
    let visits = vec![node("/r/fifo", Probe::Other), node("/r/b", Probe::File)];
    let report = walk_listing(&req, &visits);
    assert_eq!(report.error, None);
    assert_eq!(paths(&report.entries), strings(&["/r/b"]));
}

#[test]
fn empty_listing_reports_nothing() {
    let report = walk_listing(&request("/r", "/o", &[], "web"), &Vec::new());
    assert!(report.entries.is_empty());
    assert_eq!(report.error, None);
}

#[test]
fn walker_asks_then_emits() {
    let req = request("/s", "/d", &["skip"], "web");
    let mut w = Walker::new();
    assert!(!w.accepts(&WalkEvent::Probed(Probe::File)));
    match w.step(&req, WalkEvent::Found("/s/skip.txt".to_string())) {
        WalkAction::Skip => {}
        other => panic!("unexpected {:?}", other),
    }
    match w.step(&req, WalkEvent::Found("/s/a".to_string())) {
        WalkAction::Query(p) => assert_eq!(p, "/s/a"),
        other => panic!("unexpected {:?}", other),
    }
    assert!(w.accepts(&WalkEvent::Probed(Probe::File)));
    assert!(!w.accepts(&WalkEvent::Exhausted));
    match w.step(&req, WalkEvent::Probed(Probe::File)) {
        WalkAction::Emit(e) => {
            assert_eq!(e.path, "/s/a");
            assert_eq!(e.kind, EntryKind::File);
            assert_eq!(e.remapped, Some("/d/a".to_string()));
        }
        other => panic!("unexpected {:?}", other),
    }
    match w.step(&req, WalkEvent::Exhausted) {
        WalkAction::Stop => {}
        other => panic!("unexpected {:?}", other),
    }
    assert!(w.is_finished());
}

#[test]
fn walker_stops_after_failure() {
    let req = request("/s", "", &[], "web");
    let mut w = Walker::new();
    match w.step(&req, WalkEvent::Found("/s/x".to_string())) {
        WalkAction::Query(_) => {}
        other => panic!("unexpected {:?}", other),
    }
    match w.step(&req, WalkEvent::Probed(Probe::Missing)) {
        WalkAction::Fail(e) => assert_eq!(e, WalkError::StatusQuery("/s/x".to_string())),
        other => panic!("unexpected {:?}", other),
    }
    assert!(w.is_finished());
    match w.step(&req, WalkEvent::Found("/s/y".to_string())) {
        WalkAction::Stop => {}
        other => panic!("unexpected {:?}", other),
    }
}
