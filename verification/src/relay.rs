//! The bridge between a walk and its observer: which snapshots are passed
//! on, and under which name each event is announced.

use vstd::prelude::*;
use vstd::string::to_string_from_display_ensures;

use crate::error::VeloxError;
use crate::types::{ScanProgress, ScanResult, ScanStatus};

verus! {

/// Least time between two snapshots of a running walk that are passed on.
pub const RELAY_INTERVAL_MS: u64 = 50;

/// Whether a snapshot with `status` that arrives at `now_ms` is passed on,
/// when the last one was passed on at `last_emit_ms`: always if it reports
/// anything but a running walk, and else if the interval has gone by.
pub open spec fn forwards(last_emit_ms: u64, now_ms: u64, status: ScanStatus) -> bool {
    let waited = if now_ms >= last_emit_ms {
        now_ms - last_emit_ms
    } else {
        0
    };
    waited >= RELAY_INTERVAL_MS || !(status is Scanning)
}

/// Passes the snapshots of one walk on to its observer, in the order in
/// which they arrive and without changing them, but no more often than
/// the observer can take.
#[derive(Debug, Clone, Copy)]
pub struct ProgressRelay {
    /// When a snapshot was last passed on.
    pub last_emit_ms: u64,
}

impl ProgressRelay {
    /// A relay that starts to count at `now_ms`.
    pub fn new(now_ms: u64) -> (r: Self)
        ensures
            r.last_emit_ms == now_ms,
    {
        ProgressRelay { last_emit_ms: now_ms }
    }

    /// Decides whether the snapshot with `status` that arrives at `now_ms`
    /// is passed on, and remembers the time if it is.
    pub fn offer(&mut self, status: ScanStatus, now_ms: u64) -> (forward: bool)
        ensures
            forward == forwards(old(self).last_emit_ms, now_ms, status),
            status.terminal() ==> forward,
            final(self).last_emit_ms == if forward {
                now_ms
            } else {
                old(self).last_emit_ms
            },
    {
        let waited = if now_ms >= self.last_emit_ms {
            now_ms - self.last_emit_ms
        } else {
            0
        };
        let forward = waited >= RELAY_INTERVAL_MS || status != ScanStatus::Scanning;
        if forward {
            self.last_emit_ms = now_ms;
        }
        forward
    }
}

/// What an observer is told of a scan.
#[derive(Debug, Clone)]
pub enum ScanEvent {
    /// The walk goes on, or has just ended.
    Progress(ScanProgress),
    /// The walk is complete; this is its result.
    Complete(ScanResult),
    /// The scan failed or was cancelled.
    Failed { scan_id: String, error: String },
}

impl ScanEvent {
    /// The name under which the event is announced.
    pub open spec fn name(self) -> Seq<char> {
        match self {
            ScanEvent::Progress(_) => "velox:scan:progress"@,
            ScanEvent::Complete(_) => "velox:scan:complete"@,
            ScanEvent::Failed { .. } => "velox:scan:error"@,
        }
    }

    /// The name under which the event is announced.
    pub fn event_name(&self) -> (r: &'static str)
        ensures
            r@ == self.name(),
    {
        match self {
            ScanEvent::Progress(_) => "velox:scan:progress",
            ScanEvent::Complete(_) => "velox:scan:complete",
            ScanEvent::Failed { .. } => "velox:scan:error",
        }
    }

    /// The event that closes a scan: its result if it has one, and else
    /// the scan's identifier with the message of the error. For an `Io`
    /// error the message is `"IO Error: "` followed by the message of the
    /// underlying error.
    pub fn closing(scan_id: String, outcome: Result<ScanResult, VeloxError>) -> (e: Self)
        ensures
            outcome matches Ok(result) ==> e == ScanEvent::Complete(result),
            outcome matches Err(error) ==> (e matches ScanEvent::Failed { scan_id: id, error: text }
                && id == scan_id && (!(error is Io) ==> text@ == error.display_text()) && (
            error matches VeloxError::Io(io) ==> exists|t: String|
                to_string_from_display_ensures::<std::io::Error>(&io, t) && text@
                    == error.display_prefix() + t@)),
    {
        match outcome {
            Ok(result) => ScanEvent::Complete(result),
            Err(error) => ScanEvent::Failed { scan_id, error: error.to_string() },
        }
    }
}

} // verus!
