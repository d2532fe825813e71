use dux::scanner::filter::{is_virtual_or_slow_path, keep_child, SLOW_PATTERNS};
use dux::scanner::walker::{finish_scan, kind_of, record_entry, ScanEntry, SharedProgress};
use dux::scanner::{
    CancellationToken, ScanConfig, ScanMessage, ScanPhase, ScanProgress, ScanSession, Scanner,
    Step, WalkEvent,
};
use dux::{DiskTree, NodeId, NodeKind, Timestamp};

fn s(text: &str) -> String {
    text.to_string()
}

fn entry(path: &str, name: &str, is_dir: bool, parent: Option<NodeId>, usage: u64) -> ScanEntry {
    ScanEntry {
        path: s(path),
        name: s(name),
        is_dir,
        is_symlink: false,
        parent,
        device: 1,
        mtime: Some(Timestamp { nanos: 77 }),
        disk_usage: usage,
    }
}

#[test]
fn filter_skips_virtual_paths_outside_the_root() {
    assert!(is_virtual_or_slow_path("/proc/1/fd", "/"));
    assert!(is_virtual_or_slow_path("/home/u/.timemachine/x", "/home/u"));
    assert!(is_virtual_or_slow_path("/Volumes/Disk", "/"));
    assert!(is_virtual_or_slow_path("/private/var/folders/ab", "/private"));
    assert!(!is_virtual_or_slow_path("/home/u/src", "/home/u"));
    assert!(!is_virtual_or_slow_path("/home/u/proc", "/home/u"));
    assert!(!is_virtual_or_slow_path("/home/u/volumes/x", "/home/u"));
}

#[test]
fn filter_lets_a_scan_run_inside_a_virtual_path() {
    assert!(!is_virtual_or_slow_path("/proc/1/fd", "/proc/1"));
    assert!(!is_virtual_or_slow_path("/private/var/folders/ab/cd", "/private/var/folders/ab"));
    assert!(is_virtual_or_slow_path("/private/var/folders/ab/.fseventsd", "/private/var/folders/ab"));
}

#[test]
fn filter_never_skips_the_root_or_what_lies_above_it() {
    assert!(!is_virtual_or_slow_path("/dev/", "/dev/shm"));
    assert!(!is_virtual_or_slow_path("/dev//", "/dev"));
    assert!(!is_virtual_or_slow_path("/x/.timemachine", "/x/.timemachine"));
}

#[test]
fn filter_knows_fourteen_patterns() {
    assert_eq!(SLOW_PATTERNS.len(), 14);
    assert!(SLOW_PATTERNS.contains(&"/proc/"));
    assert!(SLOW_PATTERNS.contains(&"/sys/"));
    assert!(SLOW_PATTERNS.contains(&"/dev/"));
    for pattern in SLOW_PATTERNS {
        let path = format!("/a{}b", pattern);
        assert!(is_virtual_or_slow_path(&path, "/a"), "{}", pattern);
        assert!(!is_virtual_or_slow_path(&format!("{}/c", path), &path), "{}", pattern);
    }
}

#[test]
fn children_on_other_devices_are_dropped() {
    assert!(keep_child(true, 1, Some(1), "/r/a", "/r"));
    assert!(!keep_child(true, 1, Some(2), "/r/a", "/r"));
    assert!(keep_child(true, 1, None, "/r/a", "/r"));
    assert!(!keep_child(true, 1, Some(1), "/r/proc/x", "/r"));
    assert!(keep_child(false, 1, Some(2), "/r/a", "/r"));
    assert!(keep_child(false, 1, Some(1), "/r/proc/x", "/r"));
}

#[test]
fn test_scan_empty_dir() {
    let mut tree = DiskTree::new(s("/empty"));
    finish_scan(&mut tree);
    assert_eq!(tree.len(), 1);
    assert_eq!(tree.total_size(), 0);
    assert_eq!(tree.total_files(), 0);
}

#[test]
fn test_scan_with_files() {
    let progress = SharedProgress::new();
    let mut tree = DiskTree::new(s("/t"));
    let root = Some(NodeId::root());
    assert!(record_entry(&mut tree, &progress, true, 1, entry("/t", "t", true, None, 0)).is_none());
    record_entry(&mut tree, &progress, true, 1, entry("/t/file1.txt", "file1.txt", false, root, 512));
    record_entry(&mut tree, &progress, true, 1, entry("/t/file2.txt", "file2.txt", false, root, 512));
    let sub = record_entry(&mut tree, &progress, true, 1, entry("/t/subdir", "subdir", true, root, 0));
    record_entry(&mut tree, &progress, true, 1, entry("/t/subdir/file3.txt", "file3.txt", false, sub, 512));
    finish_scan(&mut tree);
    assert!(tree.len() >= 4);
    assert_eq!(tree.len(), 5);
    let snapshot = progress.to_scan_progress(Some(s("/t/subdir/file3.txt")));
    assert_eq!(snapshot.files_scanned, 3);
    assert_eq!(snapshot.dirs_scanned, 1);
    assert_eq!(snapshot.bytes_scanned, 1536);
    assert_eq!(snapshot.errors, 0);
    assert_eq!(snapshot.total_entries(), 4);
    assert_eq!(snapshot.current_path, Some(s("/t/subdir/file3.txt")));
}

#[test]
fn scanning_a_small_tree_aggregates_and_sorts() {
    let progress = SharedProgress::new();
    let mut tree = DiskTree::new(s("/R"));
    let root = Some(NodeId::root());
    let a = record_entry(&mut tree, &progress, true, 1, entry("/R/a.txt", "a.txt", false, root, 100))
        .unwrap();
    let b = record_entry(&mut tree, &progress, true, 1, entry("/R/b", "b", true, root, 4096)).unwrap();
    let c = record_entry(&mut tree, &progress, true, 1, entry("/R/b/c.txt", "c.txt", false, Some(b), 200))
        .unwrap();
    let d = record_entry(&mut tree, &progress, true, 1, entry("/R/b/d.txt", "d.txt", false, Some(b), 300))
        .unwrap();
    assert_eq!(tree.get(b).unwrap().mtime, Some(Timestamp { nanos: 77 }));
    assert_eq!(tree.get(a).unwrap().mtime, None);
    assert_eq!(tree.get(b).unwrap().size, 4096);
    finish_scan(&mut tree);
    assert_eq!(tree.root().size, 600);
    assert_eq!(tree.root().file_count, 3);
    assert_eq!(tree.root().children, vec![b, a]);
    assert_eq!(tree.get(b).unwrap().children, vec![d, c]);
    assert_eq!(tree.get(b).unwrap().size, 500);
}

#[test]
fn entries_that_do_not_belong_are_passed_over() {
    let progress = SharedProgress::new();
    let mut tree = DiskTree::new(s("/R"));
    let root = Some(NodeId::root());
    let mut other_device = entry("/R/mnt", "mnt", true, root, 0);
    other_device.device = 2;
    assert!(record_entry(&mut tree, &progress, true, 1, other_device.clone()).is_none());
    assert!(record_entry(&mut tree, &progress, false, 1, other_device).is_some());
    assert!(record_entry(&mut tree, &progress, true, 1, entry("/R/x", "x", false, None, 1)).is_none());
    assert!(record_entry(&mut tree, &progress, true, 1, entry("/R/y", "y", false, Some(NodeId(9)), 1))
        .is_none());
    assert_eq!(tree.len(), 2);
}

#[test]
fn kinds_of_entries() {
    assert_eq!(kind_of(true, false), NodeKind::Directory);
    assert_eq!(kind_of(true, true), NodeKind::Directory);
    assert_eq!(kind_of(false, true), NodeKind::Symlink);
    assert_eq!(kind_of(false, false), NodeKind::File);
}

#[test]
fn default_configuration() {
    let config = ScanConfig::default();
    assert!(!config.follow_symlinks);
    assert_eq!(config.max_depth, None);
    assert!(config.same_filesystem);
    assert_eq!(config.num_threads, 0);
}

#[test]
fn cancellation_is_shared_between_clones() {
    let token = CancellationToken::new();
    assert!(!token.is_cancelled());
    let scanner = Scanner::new(ScanConfig::default()).with_cancellation(token.clone());
    assert!(!scanner.cancel_token.is_cancelled());
    token.cancel();
    assert!(token.is_cancelled());
    assert!(scanner.cancel_token.is_cancelled());
    let own = Scanner::new(ScanConfig::default());
    assert!(!own.cancel_token.is_cancelled());
}

#[test]
fn shared_progress_counts() {
    let progress = SharedProgress::new();
    assert!(!progress.is_done());
    progress.add_file();
    progress.add_file();
    progress.add_dir();
    progress.add_bytes(10);
    progress.add_bytes(5);
    progress.add_error();
    progress.set_done();
    assert!(progress.is_done());
    let snapshot = progress.to_scan_progress(None);
    assert_eq!(snapshot.files_scanned, 2);
    assert_eq!(snapshot.dirs_scanned, 1);
    assert_eq!(snapshot.bytes_scanned, 15);
    assert_eq!(snapshot.errors, 1);
    assert_eq!(snapshot.current_path, None);
}

#[test]
fn only_completed_and_cancelled_end_the_stream() {
    assert!(ScanMessage::Completed.is_terminal());
    assert!(ScanMessage::Cancelled.is_terminal());
    assert!(!ScanMessage::Finalizing.is_terminal());
    assert!(!ScanMessage::Progress(ScanProgress::new()).is_terminal());
    assert!(!ScanMessage::StartedDirectory(s("/r")).is_terminal());
    assert!(!ScanMessage::Error(s("e")).is_terminal());
}

#[test]
fn a_scan_runs_through_its_phases() {
    let progress = SharedProgress::new();
    let (mut session, started) =
        ScanSession::start(s("/R"), Some(Timestamp { nanos: 5 }), true, 1);
    assert!(matches!(started, ScanMessage::StartedDirectory(ref p) if p == "/R"));
    assert_eq!(session.phase(), ScanPhase::Walking);
    assert_eq!(session.tree().root().mtime, Some(Timestamp { nanos: 5 }));
    assert!(session.finish().is_none());

    let root = Some(NodeId::root());
    let b = match session.step(&progress, false, WalkEvent::Entry(entry("/R/b", "b", true, root, 0))) {
        Step::Directory(id) => id,
        other => panic!("unexpected step {:?}", other),
    };
    assert!(matches!(
        session.step(&progress, false, WalkEvent::Entry(entry("/R/b/c", "c", false, Some(b), 70))),
        Step::Passed
    ));
    assert!(matches!(session.step(&progress, false, WalkEvent::Unreadable), Step::Passed));
    assert!(matches!(
        session.step(&progress, false, WalkEvent::Entry(entry("/R/x", "x", false, None, 1))),
        Step::Passed
    ));
    assert_eq!(session.tree().len(), 3);
    assert_eq!(progress.to_scan_progress(None).errors, 1);
    assert_eq!(session.tree().total_size(), 0);

    assert!(matches!(session.end_of_walk(), Some(ScanMessage::Finalizing)));
    assert_eq!(session.phase(), ScanPhase::Finalizing);
    assert!(session.end_of_walk().is_none());
    assert!(matches!(
        session.step(&progress, true, WalkEvent::Entry(entry("/R/late", "late", false, root, 1))),
        Step::Passed
    ));
    assert!(matches!(session.finish(), Some(ScanMessage::Completed)));
    assert_eq!(session.phase(), ScanPhase::Completed);
    assert!(session.finish().is_none());
    let tree = session.into_tree();
    assert_eq!(tree.total_size(), 70);
    assert_eq!(tree.total_files(), 1);
}

#[test]
fn a_cancelled_scan_keeps_its_partial_tree() {
    let progress = SharedProgress::new();
    let (mut session, _started) = ScanSession::start(s("/R"), None, true, 1);
    let root = Some(NodeId::root());
    session.step(&progress, false, WalkEvent::Entry(entry("/R/a", "a", false, root, 10)));
    let stop = session.step(&progress, true, WalkEvent::Entry(entry("/R/b", "b", false, root, 20)));
    assert!(matches!(stop, Step::Stop(ScanMessage::Cancelled)));
    assert_eq!(session.phase(), ScanPhase::Cancelled);
    assert!(session.end_of_walk().is_none());
    assert!(session.finish().is_none());
    let tree = session.into_tree();
    assert_eq!(tree.len(), 2);
    assert_eq!(tree.total_size(), 0);
    assert_eq!(tree.root().mtime, None);
}
