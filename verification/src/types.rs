//! The data model shared by the scanner, the registry and the commands.

use std::sync::atomic::AtomicBool;
use std::sync::Arc;
use vstd::prelude::*;

use crate::clock::Timestamp;
use crate::ident::ScanId;

verus! {

/// The text held by an optional string.
pub open spec fn opt_text(o: Option<String>) -> Option<Seq<char>> {
    match o {
        Some(s) => Some(s@),
        None => None,
    }
}

/// Lifecycle label of a scan. `Idle` turns into `Scanning` when the walk
/// starts; `Scanning` turns into one of the other three exactly once.
#[derive(Clone, Copy, Debug, PartialEq, Eq, Structural)]
pub enum ScanStatus {
    Idle,
    Scanning,
    Completed,
    Cancelled,
    Error,
}

impl ScanStatus {
    /// A terminal status admits no further transition.
    pub open spec fn terminal(self) -> bool {
        self is Completed || self is Cancelled || self is Error
    }

    /// Whether the status is terminal.
    pub fn is_terminal(&self) -> (r: bool)
        ensures
            r == self.terminal(),
    {
        match self {
            ScanStatus::Completed | ScanStatus::Cancelled | ScanStatus::Error => true,
            _ => false,
        }
    }
}

/// One filesystem node discovered during a walk.
#[derive(Debug, Clone)]
pub struct FileEntry {
    pub id: String,
    pub name: String,
    pub path: String,
    pub size: u64,
    pub is_directory: bool,
    pub is_file: bool,
    pub is_symlink: bool,
    pub extension: Option<String>,
    pub modified: Option<String>,
    pub created: Option<String>,
    pub depth: usize,
    pub children_count: Option<u64>,
}

/// What a [`FileEntry`] holds, with texts as sequences of characters.
pub struct EntryModel {
    pub id: Seq<char>,
    pub name: Seq<char>,
    pub path: Seq<char>,
    pub size: u64,
    pub is_directory: bool,
    pub is_file: bool,
    pub is_symlink: bool,
    pub extension: Option<Seq<char>>,
    pub modified: Option<Seq<char>>,
    pub created: Option<Seq<char>>,
    pub depth: usize,
    pub children_count: Option<u64>,
}

impl View for FileEntry {
    type V = EntryModel;

    open spec fn view(&self) -> EntryModel {
        EntryModel {
            id: self.id@,
            name: self.name@,
            path: self.path@,
            size: self.size,
            is_directory: self.is_directory,
            is_file: self.is_file,
            is_symlink: self.is_symlink,
            extension: opt_text(self.extension),
            modified: opt_text(self.modified),
            created: opt_text(self.created),
            depth: self.depth,
            children_count: self.children_count,
        }
    }
}

/// The models of a sequence of entries, in the same order.
pub open spec fn entry_models(entries: Seq<FileEntry>) -> Seq<EntryModel> {
    entries.map_values(|e: FileEntry| e@)
}

/// Number of entries that are regular files.
pub open spec fn count_files(entries: Seq<EntryModel>) -> nat
    decreases entries.len(),
{
    if entries.len() == 0 {
        0
    } else {
        count_files(entries.drop_last()) + if entries.last().is_file {
            1nat
        } else {
            0nat
        }
    }
}

/// Number of entries that are directories.
pub open spec fn count_directories(entries: Seq<EntryModel>) -> nat
    decreases entries.len(),
{
    if entries.len() == 0 {
        0
    } else {
        count_directories(entries.drop_last()) + if entries.last().is_directory {
            1nat
        } else {
            0nat
        }
    }
}

/// Sum of the sizes of the entries that are regular files.
pub open spec fn sum_file_sizes(entries: Seq<EntryModel>) -> nat
    decreases entries.len(),
{
    if entries.len() == 0 {
        0
    } else {
        let last = entries.last();
        sum_file_sizes(entries.drop_last()) + if last.is_file {
            last.size as nat
        } else {
            0
        }
    }
}

/// A point-in-time snapshot of a running scan. `progress_percent` is 0
/// while the walk runs, because the total is not known ahead of time, and
/// 100 on the snapshot that closes a completed walk.
#[derive(Debug, Clone)]
pub struct ScanProgress {
    pub scan_id: String,
    pub current_path: String,
    pub files_scanned: u64,
    pub directories_scanned: u64,
    pub bytes_scanned: u64,
    pub progress_percent: u8,
    pub estimated_total: Option<u64>,
    pub elapsed_ms: u64,
    pub status: ScanStatus,
}

/// What a [`ScanProgress`] holds.
pub struct ProgressModel {
    pub scan_id: Seq<char>,
    pub current_path: Seq<char>,
    pub files_scanned: u64,
    pub directories_scanned: u64,
    pub bytes_scanned: u64,
    pub progress_percent: u8,
    pub estimated_total: Option<u64>,
    pub elapsed_ms: u64,
    pub status: ScanStatus,
}

impl View for ScanProgress {
    type V = ProgressModel;

    open spec fn view(&self) -> ProgressModel {
        ProgressModel {
            scan_id: self.scan_id@,
            current_path: self.current_path@,
            files_scanned: self.files_scanned,
            directories_scanned: self.directories_scanned,
            bytes_scanned: self.bytes_scanned,
            progress_percent: self.progress_percent,
            estimated_total: self.estimated_total,
            elapsed_ms: self.elapsed_ms,
            status: self.status,
        }
    }
}

/// The terminal artifact of a successful walk.
#[derive(Debug, Clone)]
pub struct ScanResult {
    pub scan_id: String,
    pub root_path: String,
    pub total_files: u64,
    pub total_directories: u64,
    pub total_size: u64,
    pub entries: Vec<FileEntry>,
    pub duration_ms: u64,
    pub completed_at: String,
    pub status: ScanStatus,
}

/// What a [`ScanResult`] holds.
pub struct ResultModel {
    pub scan_id: Seq<char>,
    pub root_path: Seq<char>,
    pub total_files: u64,
    pub total_directories: u64,
    pub total_size: u64,
    pub entries: Seq<EntryModel>,
    pub duration_ms: u64,
    pub completed_at: Seq<char>,
    pub status: ScanStatus,
}

impl View for ScanResult {
    type V = ResultModel;

    open spec fn view(&self) -> ResultModel {
        ResultModel {
            scan_id: self.scan_id@,
            root_path: self.root_path@,
            total_files: self.total_files,
            total_directories: self.total_directories,
            total_size: self.total_size,
            entries: entry_models(self.entries@),
            duration_ms: self.duration_ms,
            completed_at: self.completed_at@,
            status: self.status,
        }
    }
}

impl ResultModel {
    /// The totals of a result are those of its entries.
    pub open spec fn totals_match(self) -> bool {
        &&& self.total_files == count_files(self.entries)
        &&& self.total_directories == count_directories(self.entries)
        &&& self.total_size == sum_file_sizes(self.entries)
    }
}

/// Facts about the machine the process runs on.
#[derive(Debug, Clone)]
pub struct SystemInfo {
    pub os: String,
    pub arch: String,
    pub version: String,
    pub hostname: String,
    pub cpu_cores: usize,
    pub timestamp: String,
}

/// Answer to a liveness probe.
#[derive(Debug, Clone)]
pub struct HeartbeatResponse {
    pub status: String,
    pub uptime_ms: u64,
    pub active_scans: usize,
    pub timestamp: String,
    pub version: String,
}

/// A request to scan `path`.
#[derive(Debug, Clone)]
pub struct ScanRequest {
    pub path: String,
    pub max_depth: Option<usize>,
    pub include_hidden: bool,
    pub follow_symlinks: bool,
}

/// Clones the pointer with `Arc::clone`. Trusted: the result points to the
/// same flag as `flag`.
#[verifier::external_body]
fn share_flag(flag: &Arc<AtomicBool>) -> (r: Arc<AtomicBool>)
    ensures
        r == *flag,
{
    Arc::clone(flag)
}

/// One scan request while it is tracked: its identity, its root, and the
/// cancellation flag that the registry and the running scanner share.
/// The flag is only ever raised, so a cancellation is permanent.
#[derive(Debug)]
pub struct ScanSession {
    pub id: ScanId,
    pub root_path: String,
    pub started_at: Timestamp,
    pub status: ScanStatus,
    pub cancelled: Arc<AtomicBool>,
}

impl ScanSession {
    /// A new idle session for `root_path`, with a fresh identifier and a
    /// lowered cancellation flag.
    ///
    /// Panics if the system clock is set before 1970, or if the operating
    /// system fails to give random numbers for the identifier.
    pub fn new(root_path: String) -> (s: Self)
        ensures
            s.root_path == root_path,
            s.status is Idle,
            crate::ident::random_marks(s.id.0),
            s.started_at.text() is Some,
    {
        ScanSession {
            id: ScanId::new(),
            root_path,
            started_at: Timestamp::now(),
            status: ScanStatus::Idle,
            cancelled: Arc::new(AtomicBool::new(false)),
        }
    }

    /// Whether cancellation has been requested. The flag is shared with
    /// other threads, so nothing is known of the answer ahead of the call.
    pub fn is_cancelled(&self) -> bool {
        self.cancelled.load(std::sync::atomic::Ordering::Relaxed)
    }

    /// Requests cancellation. The session's own fields stay as they are.
    pub fn cancel(&self) {
        self.cancelled.store(true, std::sync::atomic::Ordering::Relaxed);
    }
}

impl Clone for ScanSession {
    /// A second handle on the same session: equal fields, and the same
    /// cancellation flag.
    fn clone(&self) -> (s: Self)
        ensures
            s == *self,
    {
        ScanSession {
            id: self.id,
            root_path: self.root_path.clone(),
            started_at: self.started_at,
            status: self.status,
            cancelled: share_flag(&self.cancelled),
        }
    }
}

} // verus!
