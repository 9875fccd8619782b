//! What a front end can ask of the core. Each command works on the shared
//! state and plain values; the transport that carries requests and answers
//! is not its concern.

use vstd::prelude::*;

use crate::clock::{millis_between, now_rfc3339, Timestamp};
use crate::error::VeloxError;
use crate::scanner::{DirectoryScanner, ScanConfig, ScannerModel};
use crate::state::{knows, scanning, slot, without, VeloxState};
use crate::types::{HeartbeatResponse, ScanRequest, ScanSession, ScanStatus, SystemInfo};

verus! {

/// Asks the system for its host name with `hostname::get`, and turns the
/// name into text, replacing what is not Unicode. `None` if the system
/// gives no name. The answer depends on the machine, so nothing is
/// claimed of it.
#[verifier::external_body]
fn host_name() -> (r: Option<String>) {
    match hostname::get() {
        Ok(name) => Some(name.to_string_lossy().into_owned()),
        Err(_) => None,
    }
}

/// Asks `num_cpus::get` for the number of logical processors. The answer
/// depends on the machine, so nothing is claimed of it.
#[verifier::external_body]
fn cpu_count() -> (n: usize) {
    num_cpus::get()
}

/// The depth limit that applies where a request names none.
pub const DEFAULT_MAX_DEPTH: usize = 100;

/// The progress interval of the scans that a request starts.
pub const REQUEST_PROGRESS_INTERVAL_MS: u64 = 50;

/// The configuration that a request asks for.
pub open spec fn requested_config(request: ScanRequest) -> ScanConfig {
    ScanConfig {
        max_depth: match request.max_depth {
            Some(d) => d,
            None => DEFAULT_MAX_DEPTH,
        },
        include_hidden: request.include_hidden,
        follow_symlinks: request.follow_symlinks,
        progress_interval_ms: REQUEST_PROGRESS_INTERVAL_MS,
    }
}

/// The configuration that `request` asks for.
pub fn scan_config_for(request: &ScanRequest) -> (c: ScanConfig)
    ensures
        c == requested_config(*request),
{
    ScanConfig {
        max_depth: match request.max_depth {
            Some(d) => d,
            None => DEFAULT_MAX_DEPTH,
        },
        include_hidden: request.include_hidden,
        follow_symlinks: request.follow_symlinks,
        progress_interval_ms: REQUEST_PROGRESS_INTERVAL_MS,
    }
}

/// Opens the scan that `request` asks for: makes a session for its path,
/// registers it in the status `Scanning`, and returns the scanner that is
/// to walk it, not yet started. From then on the session counts among the
/// active scans, until the caller lets go of it with
/// [`VeloxState::remove_scan`] when the walk is over.
///
/// Panics if the system clock is set before 1970, or if the operating
/// system fails to give random numbers for the identifier.
pub fn open_scan(state: &mut VeloxState, request: &ScanRequest) -> (scanner: DirectoryScanner)
    requires
        old(state).wf(),
    ensures
        final(state).wf(),
        final(state).started() == old(state).started(),
        final(state).settings() == old(state).settings(),
        scanner.wf(),
        scanner.session_model().root_path@ == request.path@,
        scanner.session_model().status is Scanning,
        final(state)@ == without(old(state)@, scanner@.scan_id).push(scanner.session_model()),
        knows(final(state)@, scanner@.scan_id),
        scanning(final(state)@) == scanning(without(old(state)@, scanner@.scan_id)) + 1,
        final(state)@[slot(final(state)@, scanner@.scan_id)] == scanner.session_model(),
        scanner@ == (ScannerModel {
            config: requested_config(*request),
            scan_id: scanner.session_model().id.text(),
            root_path: request.path@,
            status: ScanStatus::Idle,
            entries: Seq::empty(),
            last_progress_ms: 0,
            pruned: None,
        }),
{
    let mut session = ScanSession::new(request.path.clone());
    session.status = ScanStatus::Scanning;
    let handle = session.clone();
    proof {
        crate::state::registered_is_found(state@, session);
    }
    state.register_scan(session);
    DirectoryScanner::new(handle, scan_config_for(request))
}

/// Requests the cancellation of the scan `scan_id`.
pub fn cancel_scan(state: &VeloxState, scan_id: String) -> (r: Result<bool, VeloxError>)
    requires
        state.wf(),
    ensures
        knows(state@, scan_id@) ==> r matches Ok(true),
        !knows(state@, scan_id@) ==> (r matches Err(VeloxError::NoActiveScan(s)) && s == scan_id),
{
    if state.cancel_scan(scan_id.as_str()) {
        Ok(true)
    } else {
        Err(VeloxError::NoActiveScan(scan_id))
    }
}

/// The status of the session of the scan `scan_id`.
pub fn get_scan_status(state: &VeloxState, scan_id: String) -> (r: Result<ScanStatus, VeloxError>)
    requires
        state.wf(),
    ensures
        knows(state@, scan_id@) ==> (r matches Ok(status) && status == state@[slot(
            state@,
            scan_id@,
        )].status),
        !knows(state@, scan_id@) ==> (r matches Err(VeloxError::NoActiveScan(s)) && s == scan_id),
{
    match state.get_scan(scan_id.as_str()) {
        Some(session) => Ok(session.status),
        None => Err(VeloxError::NoActiveScan(scan_id)),
    }
}

/// The text that stands for a host name that the system does not give.
pub open spec fn host_or_unknown(host: Option<String>) -> Seq<char> {
    match host {
        Some(name) => name@,
        None => "unknown"@,
    }
}

/// Facts about the machine, put together from what the caller has found
/// out about it.
pub fn system_info(
    os: String,
    arch: String,
    version: String,
    host: Option<String>,
    cpu_cores: usize,
    timestamp: String,
) -> (info: SystemInfo)
    ensures
        info.os == os,
        info.arch == arch,
        info.version == version,
        info.hostname@ == host_or_unknown(host),
        info.cpu_cores == cpu_cores,
        info.timestamp == timestamp,
{
    let hostname = match host {
        Some(name) => name,
        None => String::from_str("unknown"),
    };
    SystemInfo { os, arch, version, hostname, cpu_cores, timestamp }
}

/// Facts about the machine. The caller names the operating system, the
/// architecture and the version of the application; the host name, the
/// number of processors and the time are asked for here.
///
/// Panics if the system clock is set before 1970.
pub fn get_system_info(os: String, arch: String, version: String) -> (info: SystemInfo)
    ensures
        info.os == os,
        info.arch == arch,
        info.version == version,
        exists|t: Timestamp| t.text() == Some(info.timestamp@),
{
    let host = host_name();
    let cores = cpu_count();
    system_info(os, arch, version, host, cores, now_rfc3339())
}

/// The answer to a liveness probe, put together from its parts.
pub fn heartbeat_with(
    state: &VeloxState,
    uptime_ms: u64,
    timestamp: String,
    version: String,
) -> (beat: HeartbeatResponse)
    ensures
        beat.status@ == "healthy"@,
        beat.uptime_ms == uptime_ms,
        beat.active_scans == scanning(state@),
        beat.timestamp == timestamp,
        beat.version == version,
{
    HeartbeatResponse {
        status: String::from_str("healthy"),
        uptime_ms,
        active_scans: state.active_scan_count(),
        timestamp,
        version,
    }
}

/// The answer to a liveness probe, by the clock.
///
/// Panics if the system clock is set before 1970.
pub fn heartbeat(state: &VeloxState, version: String) -> (beat: HeartbeatResponse)
    ensures
        beat.status@ == "healthy"@,
        beat.active_scans == scanning(state@),
        beat.version == version,
        exists|now: Timestamp|
            beat.uptime_ms == millis_between(state.started(), now) % 0x1_0000_0000_0000_0000,
        exists|t: Timestamp| t.text() == Some(beat.timestamp@),
{
    let uptime_ms = state.uptime_ms();
    heartbeat_with(state, uptime_ms, now_rfc3339(), version)
}

/// The error for a folder dialog that gave no answer.
pub fn dialog_failure(reason: &str) -> (e: VeloxError)
    ensures
        e matches VeloxError::Unknown(s) && s@ == "Dialog error: "@ + reason@,
{
    VeloxError::Unknown(String::from_str("Dialog error: ").concat(reason))
}

} // verus!
