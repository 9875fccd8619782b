use velox_core::error::VeloxError;
use velox_core::relay::{ProgressRelay, ScanEvent, RELAY_INTERVAL_MS};
use velox_core::types::{ScanProgress, ScanResult, ScanStatus};

fn empty_result() -> ScanResult {
    ScanResult {
        scan_id: "id".to_string(),
        root_path: "/r".to_string(),
        total_files: 0,
        total_directories: 0,
        total_size: 0,
        entries: Vec::new(),
        duration_ms: 3,
        completed_at: String::new(),
        status: ScanStatus::Completed,
    }
}

#[test]
fn relay_holds_back_snapshots_that_come_too_fast() {
    let mut relay = ProgressRelay::new(1000);
    assert!(!relay.offer(ScanStatus::Scanning, 1000));
    assert!(!relay.offer(ScanStatus::Scanning, 1049));
    assert_eq!(relay.last_emit_ms, 1000);
    assert!(relay.offer(ScanStatus::Scanning, 1050));
    assert_eq!(relay.last_emit_ms, 1050);
    assert!(!relay.offer(ScanStatus::Scanning, 1099));
    assert!(relay.offer(ScanStatus::Scanning, 1100));
}

#[test]
fn relay_interval_is_fifty_milliseconds() {
    assert_eq!(RELAY_INTERVAL_MS, 50);
}

#[test]
fn relay_always_passes_on_the_end_of_a_walk() {
    for status in [ScanStatus::Completed, ScanStatus::Cancelled, ScanStatus::Error] {
        let mut relay = ProgressRelay::new(1000);
        assert!(relay.offer(status, 1000));
        assert!(relay.offer(status, 1001));
        assert_eq!(relay.last_emit_ms, 1001);
    }
}

#[test]
fn relay_passes_on_an_idle_snapshot() {
    let mut relay = ProgressRelay::new(0);
    assert!(relay.offer(ScanStatus::Idle, 1));
}

#[test]
fn relay_takes_a_clock_that_went_back_as_no_wait() {
    let mut relay = ProgressRelay::new(1000);
    assert!(!relay.offer(ScanStatus::Scanning, 10));
    assert_eq!(relay.last_emit_ms, 1000);
    assert!(relay.offer(ScanStatus::Completed, 10));
    assert_eq!(relay.last_emit_ms, 10);
}

#[test]
fn events_have_their_names() {
    let progress = ScanProgress {
        scan_id: "id".to_string(),
        current_path: String::new(),
        files_scanned: 0,
        directories_scanned: 0,
        bytes_scanned: 0,
        progress_percent: 0,
        estimated_total: None,
        elapsed_ms: 0,
        status: ScanStatus::Scanning,
    };
    assert_eq!(ScanEvent::Progress(progress).event_name(), "velox:scan:progress");
    assert_eq!(ScanEvent::Complete(empty_result()).event_name(), "velox:scan:complete");
    let failed = ScanEvent::Failed { scan_id: "id".to_string(), error: "e".to_string() };
    assert_eq!(failed.event_name(), "velox:scan:error");
}

#[test]
fn closing_event_of_a_completed_scan() {
    let event = ScanEvent::closing("id".to_string(), Ok(empty_result()));
    assert!(matches!(event, ScanEvent::Complete(r) if r.duration_ms == 3 && r.scan_id == "id"));
}

#[test]
fn closing_event_of_a_cancelled_scan() {
    let event = ScanEvent::closing("id-7".to_string(), Err(VeloxError::ScanCancelled));
    assert!(matches!(
        event,
        ScanEvent::Failed { scan_id, error }
            if scan_id == "id-7" && error == "Scan operation cancelled by user"
    ));
}

#[test]
fn closing_event_of_an_io_error() {
    let io = std::io::Error::new(std::io::ErrorKind::PermissionDenied, "denied");
    let event = ScanEvent::closing("id".to_string(), Err(VeloxError::Io(io)));
    assert!(matches!(
        event,
        ScanEvent::Failed { scan_id, error } if scan_id == "id" && error == "IO Error: denied"
    ));
}

#[test]
fn closing_event_of_an_invalid_root() {
    let event =
        ScanEvent::closing("id".to_string(), Err(VeloxError::InvalidPath("/x".to_string())));
    assert_eq!(event.event_name(), "velox:scan:error");
    assert!(matches!(event, ScanEvent::Failed { error, .. } if error == "Invalid path: /x"));
}
