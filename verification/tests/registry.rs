use velox_core::clock::Timestamp;
use velox_core::commands::{
    cancel_scan, dialog_failure, get_scan_status, get_system_info, heartbeat, heartbeat_with,
    open_scan, scan_config_for, system_info,
};
use velox_core::error::VeloxError;
use velox_core::ident::ScanId;
use velox_core::scanner::{ScanStep, WalkItem};
use velox_core::state::{VeloxConfig, VeloxState};
use velox_core::types::{ScanRequest, ScanSession, ScanStatus};

fn request(path: &str) -> ScanRequest {
    ScanRequest {
        path: path.to_string(),
        max_depth: None,
        include_hidden: false,
        follow_symlinks: false,
    }
}

#[test]
fn default_velox_config() {
    let c = VeloxConfig::default();
    assert_eq!(c.max_concurrent_scans, 4);
    assert_eq!(c.default_max_depth, 100);
    assert!(!c.include_hidden_default);
    assert!(!c.follow_symlinks_default);
    assert_eq!(c.progress_emit_interval_ms, 50);
}

#[test]
fn a_new_state_has_no_scans() {
    let state = VeloxState::new();
    assert_eq!(state.active_scan_count(), 0);
    assert!(state.get_scan("anything").is_none());
    assert_eq!(state.config().max_concurrent_scans, 4);
    assert!(state.started_at().secs > 1_600_000_000);
    let state = VeloxState::default();
    assert_eq!(state.active_scan_count(), 0);
}

#[test]
fn a_new_session_is_idle_and_not_cancelled() {
    let session = ScanSession::new("/data".to_string());
    assert_eq!(session.root_path, "/data");
    assert_eq!(session.status, ScanStatus::Idle);
    assert!(!session.is_cancelled());
    assert!(session.started_at.to_rfc3339().is_some());
    assert_eq!((session.id.0 >> 76) & 0xf, 4);
}

#[test]
fn cancellation_is_permanent_and_shared() {
    let session = ScanSession::new("/data".to_string());
    let other = session.clone();
    assert_eq!(other.id, session.id);
    assert_eq!(other.root_path, "/data");
    assert_eq!(other.status, ScanStatus::Idle);
    assert_eq!(other.started_at, session.started_at);
    assert!(!other.is_cancelled());
    session.cancel();
    assert!(session.is_cancelled());
    assert!(other.is_cancelled());
    other.cancel();
    assert!(session.is_cancelled());
}

#[test]
fn a_registered_session_is_found_by_its_identifier() {
    let mut state = VeloxState::new();
    let session = ScanSession::new("/a".to_string());
    let expected = session.id.to_string();
    let id = state.register_scan(session);
    assert_eq!(id, expected);
    let found = state.get_scan(&id).expect("the session was registered");
    assert_eq!(found.root_path, "/a");
    assert_eq!(found.id.to_string(), id);
    assert_eq!(found.status, ScanStatus::Scanning);
    assert!(state.get_scan("00000000-0000-0000-0000-000000000000").is_none());
    assert!(state.get_scan("").is_none());
    assert!(state.get_scan(&id.to_uppercase()).is_none());
}

#[test]
fn sessions_are_kept_apart() {
    let mut state = VeloxState::new();
    let a = state.register_scan(ScanSession::new("/a".to_string()));
    let b = state.register_scan(ScanSession::new("/b".to_string()));
    assert_ne!(a, b);
    assert_eq!(state.get_scan(&a).unwrap().root_path, "/a");
    assert_eq!(state.get_scan(&b).unwrap().root_path, "/b");
    state.remove_scan(&a);
    assert!(state.get_scan(&a).is_none());
    assert_eq!(state.get_scan(&b).unwrap().root_path, "/b");
    state.remove_scan(&a);
    state.remove_scan("no such scan");
    assert_eq!(state.get_scan(&b).unwrap().root_path, "/b");
    state.remove_scan(&b);
    assert!(state.get_scan(&b).is_none());
}

#[test]
fn registering_an_identifier_again_replaces_the_session() {
    let mut state = VeloxState::new();
    let mut first = ScanSession::new("/first".to_string());
    first.id = ScanId(7);
    let mut second = ScanSession::new("/second".to_string());
    second.id = ScanId(7);
    second.status = ScanStatus::Scanning;
    let id = state.register_scan(first);
    assert_eq!(state.register_scan(second), id);
    assert_eq!(state.get_scan(&id).unwrap().root_path, "/second");
    assert_eq!(state.active_scan_count(), 1);
    state.remove_scan(&id);
    assert!(state.get_scan(&id).is_none());
    assert_eq!(state.active_scan_count(), 0);
}

#[test]
fn a_registered_session_is_scanning_and_counts_as_active() {
    let mut state = VeloxState::new();
    let session = ScanSession::new("/x".to_string());
    assert_eq!(session.status, ScanStatus::Idle);
    let id = state.register_scan(session);
    assert_eq!(state.get_scan(&id).unwrap().status, ScanStatus::Scanning);
    assert_eq!(state.active_scan_count(), 1);
    state.remove_scan(&id);
    assert_eq!(state.active_scan_count(), 0);
}

#[test]
fn every_registered_session_counts_as_active() {
    let mut state = VeloxState::new();
    let statuses = [
        ScanStatus::Idle,
        ScanStatus::Scanning,
        ScanStatus::Completed,
        ScanStatus::Cancelled,
        ScanStatus::Error,
    ];
    let mut ids = Vec::new();
    for status in statuses {
        let mut session = ScanSession::new("/x".to_string());
        session.status = status;
        ids.push(state.register_scan(session));
        assert_eq!(state.active_scan_count(), ids.len());
    }
    for id in &ids {
        assert_eq!(state.get_scan(id).unwrap().status, ScanStatus::Scanning);
        assert_eq!(state.get_scan(id).unwrap().root_path, "/x");
    }
    state.remove_scan(&ids[1]);
    assert_eq!(state.active_scan_count(), 4);
    state.remove_scan(&ids[1]);
    assert_eq!(state.active_scan_count(), 4);
    state.remove_scan(&ids[0]);
    assert_eq!(state.active_scan_count(), 3);
}

#[test]
fn cancelling_through_the_state_raises_the_flag() {
    let mut state = VeloxState::new();
    let session = ScanSession::new("/a".to_string());
    let handle = session.clone();
    let id = state.register_scan(session);
    let other = state.register_scan(ScanSession::new("/b".to_string()));
    assert!(!state.cancel_scan("unknown"));
    assert!(!handle.is_cancelled());
    assert!(state.cancel_scan(&id));
    assert!(handle.is_cancelled());
    assert!(state.get_scan(&id).unwrap().is_cancelled());
    assert!(!state.get_scan(&other).unwrap().is_cancelled());
    assert!(state.cancel_scan(&id));
    assert!(handle.is_cancelled());
}

#[test]
fn uptime_counts_from_the_start() {
    let state = VeloxState::new();
    let start = state.started_at();
    let later = Timestamp { secs: start.secs + 2, nanos: start.nanos };
    assert_eq!(state.uptime_at(later), 2000);
    assert_eq!(state.uptime_at(start), 0);
    assert!(state.uptime_ms() < 60_000);
}

#[test]
fn a_request_without_depth_gets_the_default() {
    let c = scan_config_for(&request("/a"));
    assert_eq!(c.max_depth, 100);
    assert!(!c.include_hidden);
    assert!(!c.follow_symlinks);
    assert_eq!(c.progress_interval_ms, 50);
}

#[test]
fn a_request_sets_the_configuration() {
    let r = ScanRequest {
        path: "/a".to_string(),
        max_depth: Some(0),
        include_hidden: true,
        follow_symlinks: true,
    };
    let c = scan_config_for(&r);
    assert_eq!(c.max_depth, 0);
    assert!(c.include_hidden);
    assert!(c.follow_symlinks);
    assert_eq!(c.progress_interval_ms, 50);
}

#[test]
fn opening_a_scan_registers_its_session() {
    let mut state = VeloxState::new();
    let scanner = open_scan(&mut state, &request("/data"));
    let id = scanner.session().id.to_string();
    assert_eq!(scanner.status(), ScanStatus::Idle);
    assert_eq!(scanner.session().root_path, "/data");
    assert_eq!(scanner.config().max_depth, 100);
    assert_eq!(scanner.entry_count(), 0);
    let registered = state.get_scan(&id).expect("the session is registered");
    assert_eq!(registered.root_path, "/data");
    assert_eq!(registered.status, ScanStatus::Scanning);
    assert_eq!(state.active_scan_count(), 1);
    assert!(matches!(get_scan_status(&state, id.clone()), Ok(ScanStatus::Scanning)));
    state.remove_scan(&id);
    assert!(state.get_scan(&id).is_none());
    assert_eq!(state.active_scan_count(), 0);
}

#[test]
fn heartbeat_counts_the_scans_in_flight() {
    let mut state = VeloxState::new();
    let first = open_scan(&mut state, &request("/a"));
    let _second = open_scan(&mut state, &request("/b"));
    assert_eq!(heartbeat(&state, "1".to_string()).active_scans, 2);
    state.remove_scan(&first.session().id.to_string());
    assert_eq!(heartbeat(&state, "1".to_string()).active_scans, 1);
}

#[test]
fn a_cancel_command_reaches_the_running_walk() {
    let mut state = VeloxState::new();
    let mut scanner = open_scan(&mut state, &request("/data"));
    let id = scanner.session().id.to_string();
    scanner.start(true, true, 0).unwrap();
    assert!(matches!(scanner.visit(WalkItem::Failed, 1), ScanStep::Continue));
    assert!(matches!(cancel_scan(&state, id.clone()), Ok(true)));
    assert!(matches!(scanner.visit(WalkItem::Failed, 2), ScanStep::Cancelled(_)));
    assert!(matches!(scanner.finish(3), Err(VeloxError::ScanCancelled)));
    state.remove_scan(&id);
    assert!(matches!(cancel_scan(&state, id.clone()), Err(VeloxError::NoActiveScan(s)) if s == id));
}

#[test]
fn cancelling_an_unknown_scan_is_an_error() {
    let state = VeloxState::new();
    let r = cancel_scan(&state, "nope".to_string());
    assert!(matches!(r, Err(VeloxError::NoActiveScan(s)) if s == "nope"));
}

#[test]
fn status_of_a_scan() {
    let mut state = VeloxState::new();
    let mut session = ScanSession::new("/a".to_string());
    session.status = ScanStatus::Scanning;
    let id = state.register_scan(session);
    assert!(matches!(get_scan_status(&state, id), Ok(ScanStatus::Scanning)));
    let fresh = state.register_scan(ScanSession::new("/b".to_string()));
    assert!(matches!(get_scan_status(&state, fresh), Ok(ScanStatus::Scanning)));
    let r = get_scan_status(&state, "missing".to_string());
    assert!(matches!(r, Err(VeloxError::NoActiveScan(s)) if s == "missing"));
}

#[test]
fn system_info_from_its_parts() {
    let info = system_info(
        "linux".to_string(),
        "x86_64".to_string(),
        "1.2.3".to_string(),
        Some("box".to_string()),
        8,
        "2024-01-01T00:00:00+00:00".to_string(),
    );
    assert_eq!(info.os, "linux");
    assert_eq!(info.arch, "x86_64");
    assert_eq!(info.version, "1.2.3");
    assert_eq!(info.hostname, "box");
    assert_eq!(info.cpu_cores, 8);
    assert_eq!(info.timestamp, "2024-01-01T00:00:00+00:00");
}

#[test]
fn system_info_without_a_host_name() {
    let info =
        system_info(String::new(), String::new(), String::new(), None, 1, String::new());
    assert_eq!(info.hostname, "unknown");
}

#[test]
fn system_info_of_this_machine() {
    let info = get_system_info("linux".to_string(), "x86_64".to_string(), "0.1.0".to_string());
    assert_eq!(info.os, "linux");
    assert_eq!(info.arch, "x86_64");
    assert_eq!(info.version, "0.1.0");
    assert_eq!(info.cpu_cores, num_cpus::get());
    let expected = hostname::get()
        .map(|h| h.to_string_lossy().to_string())
        .unwrap_or_else(|_| "unknown".to_string());
    assert_eq!(info.hostname, expected);
    assert!(chrono::DateTime::parse_from_rfc3339(&info.timestamp).is_ok());
}

#[test]
fn heartbeat_from_its_parts() {
    let mut state = VeloxState::new();
    let mut session = ScanSession::new("/a".to_string());
    session.status = ScanStatus::Scanning;
    state.register_scan(session);
    state.register_scan(ScanSession::new("/b".to_string()));
    let beat = heartbeat_with(&state, 1234, "now".to_string(), "9.9".to_string());
    assert_eq!(beat.status, "healthy");
    assert_eq!(beat.uptime_ms, 1234);
    assert_eq!(beat.active_scans, 2);
    assert_eq!(beat.timestamp, "now");
    assert_eq!(beat.version, "9.9");
}

#[test]
fn heartbeat_by_the_clock() {
    let state = VeloxState::new();
    let beat = heartbeat(&state, "0.1.0".to_string());
    assert_eq!(beat.status, "healthy");
    assert_eq!(beat.active_scans, 0);
    assert_eq!(beat.version, "0.1.0");
    assert!(beat.uptime_ms < 60_000);
    assert!(chrono::DateTime::parse_from_rfc3339(&beat.timestamp).is_ok());
}

#[test]
fn a_failed_dialog_is_an_unknown_error() {
    let e = dialog_failure("receiving on a closed channel");
    assert!(matches!(
        e,
        VeloxError::Unknown(s) if s == "Dialog error: receiving on a closed channel"
    ));
}
