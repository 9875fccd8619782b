use velox_core::error::VeloxError;
use velox_core::scanner::{
    DirectoryScanner, NodeKind, NodeMetadata, ScanConfig, WalkItem, WalkNode,
};
use velox_core::trace::{replay, Report};
use velox_core::types::{ScanSession, ScanStatus};

fn report(name: &str, path: &str, depth: usize, kind: NodeKind, len: u64, now_ms: u64) -> Report {
    Report {
        item: WalkItem::Node(WalkNode {
            name: name.to_string(),
            path: path.to_string(),
            depth,
            kind,
            metadata: Some(NodeMetadata { len, modified: None, created: None }),
            extension: None,
        }),
        now_ms,
    }
}

fn running(max_depth: usize, include_hidden: bool, interval: u64) -> DirectoryScanner {
    let config = ScanConfig {
        max_depth,
        include_hidden,
        follow_symlinks: false,
        progress_interval_ms: interval,
    };
    let mut scanner = DirectoryScanner::new(ScanSession::new("/r".to_string()), config);
    scanner.start(true, true, 0).unwrap();
    scanner
}

fn tree() -> Vec<Report> {
    vec![
        report("r", "/r", 0, NodeKind::Directory, 0, 10),
        report("a", "/r/a", 1, NodeKind::File, 10, 20),
        report(".cache", "/r/.cache", 1, NodeKind::Directory, 0, 30),
        report("x", "/r/.cache/x", 2, NodeKind::File, 1000, 40),
        report("deep", "/r/.cache/deep", 2, NodeKind::Directory, 0, 50),
        report("y", "/r/.cache/deep/y", 3, NodeKind::File, 1000, 60),
        report("b", "/r/b", 1, NodeKind::File, 20, 70),
        Report { item: WalkItem::Failed, now_ms: 80 },
        report("sub", "/r/sub", 1, NodeKind::Directory, 0, 90),
        report("c", "/r/sub/c", 2, NodeKind::File, 5, 100),
    ]
}

#[test]
fn replay_of_a_recorded_walk() {
    let mut scanner = running(100, false, u64::MAX);
    let snapshots = replay(&mut scanner, tree());
    assert!(snapshots.is_empty());
    assert_eq!(scanner.status(), ScanStatus::Scanning);
    let result = scanner.finish(110).unwrap().result;
    let paths: Vec<&str> = result.entries.iter().map(|e| e.path.as_str()).collect();
    assert_eq!(paths, vec!["/r", "/r/a", "/r/b", "/r/sub", "/r/sub/c"]);
    assert_eq!(result.total_files, 3);
    assert_eq!(result.total_directories, 2);
    assert_eq!(result.total_size, 35);
}

#[test]
fn replay_takes_the_reports_in_order() {
    let mut scanner = running(100, true, 0);
    let snapshots = replay(&mut scanner, tree());
    let paths: Vec<&str> = snapshots.iter().map(|p| p.current_path.as_str()).collect();
    assert_eq!(
        paths,
        vec![
            "/r",
            "/r/a",
            "/r/.cache",
            "/r/.cache/x",
            "/r/.cache/deep",
            "/r/.cache/deep/y",
            "/r/b",
            "/r/sub",
            "/r/sub/c"
        ]
    );
    let times: Vec<u64> = snapshots.iter().map(|p| p.elapsed_ms).collect();
    assert_eq!(times, vec![10, 20, 30, 40, 50, 60, 70, 90, 100]);
    let bytes: Vec<u64> = snapshots.iter().map(|p| p.bytes_scanned).collect();
    assert_eq!(bytes, vec![0, 10, 10, 1010, 1010, 2010, 2030, 2030, 2035]);
    assert!(snapshots.iter().all(|p| p.status == ScanStatus::Scanning));
}

#[test]
fn replay_sends_progress_by_the_interval() {
    let mut scanner = running(100, false, 50);
    let snapshots = replay(&mut scanner, tree());
    let times: Vec<u64> = snapshots.iter().map(|p| p.elapsed_ms).collect();
    assert_eq!(times, vec![70]);
    assert_eq!(snapshots[0].files_scanned, 2);
    assert_eq!(snapshots[0].directories_scanned, 1);
    assert_eq!(snapshots[0].bytes_scanned, 30);
}

#[test]
fn replay_with_depth_limit_zero() {
    let mut scanner = running(0, true, u64::MAX);
    replay(&mut scanner, tree());
    let result = scanner.finish(1).unwrap().result;
    assert_eq!(result.entries.len(), 1);
    assert_eq!(result.entries[0].path, "/r");
}

#[test]
fn replay_of_nothing_changes_nothing() {
    let mut scanner = running(100, false, 0);
    assert!(replay(&mut scanner, Vec::new()).is_empty());
    assert_eq!(scanner.entry_count(), 0);
    assert_eq!(scanner.status(), ScanStatus::Scanning);
}

#[test]
fn replay_stops_at_a_cancellation() {
    let mut scanner = running(100, false, u64::MAX);
    let mut reports = tree();
    let later = reports.split_off(2);
    assert!(replay(&mut scanner, reports).is_empty());
    scanner.session().cancel();
    let snapshots = replay(&mut scanner, later);
    assert_eq!(snapshots.len(), 1);
    assert_eq!(snapshots[0].status, ScanStatus::Cancelled);
    assert_eq!(snapshots[0].files_scanned, 1);
    assert_eq!(snapshots[0].directories_scanned, 1);
    assert_eq!(snapshots[0].elapsed_ms, 30);
    assert_eq!(scanner.status(), ScanStatus::Cancelled);
    assert_eq!(scanner.entry_count(), 2);
    assert!(matches!(scanner.finish(200), Err(VeloxError::ScanCancelled)));
}

#[test]
fn replay_on_a_scanner_that_has_not_started() {
    let mut scanner =
        DirectoryScanner::new(ScanSession::new("/r".to_string()), ScanConfig::default());
    assert!(replay(&mut scanner, tree()).is_empty());
    assert_eq!(scanner.entry_count(), 0);
    assert_eq!(scanner.status(), ScanStatus::Idle);
}

#[test]
fn replayed_snapshots_never_go_back() {
    let mut scanner = running(100, false, 0);
    let mut reports = tree();
    let later = reports.split_off(7);
    let mut snapshots = replay(&mut scanner, reports);
    scanner.session().cancel();
    snapshots.extend(replay(&mut scanner, later));
    assert_eq!(snapshots.last().map(|p| p.status), Some(ScanStatus::Cancelled));
    for pair in snapshots.windows(2) {
        assert!(pair[0].files_scanned <= pair[1].files_scanned);
        assert!(pair[0].directories_scanned <= pair[1].directories_scanned);
        assert!(pair[0].bytes_scanned <= pair[1].bytes_scanned);
    }
}

#[test]
fn replay_counts_the_bytes_of_admitted_files_only() {
    let mut scanner = running(1, false, u64::MAX);
    let reports = vec![
        report("r", "/r", 0, NodeKind::Directory, u64::MAX, 0),
        report(".big", "/r/.big", 1, NodeKind::File, u64::MAX, 0),
        report("l", "/r/l", 1, NodeKind::Symlink, u64::MAX, 0),
        report("d", "/r/d", 1, NodeKind::Directory, u64::MAX, 0),
        report("deep", "/r/d/deep", 2, NodeKind::File, u64::MAX, 0),
        report("a", "/r/a", 1, NodeKind::File, u64::MAX, 0),
    ];
    replay(&mut scanner, reports);
    let result = scanner.finish(1).unwrap().result;
    assert_eq!(result.total_size, u64::MAX);
    assert_eq!(result.total_files, 1);
    assert_eq!(result.total_directories, 2);
    assert_eq!(result.entries.len(), 4);
}
