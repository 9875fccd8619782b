//! The walk of one directory tree, as a machine that is fed the nodes a
//! walker reports, in pre-order, and answers each with what to do next.
//!
//! The machine owns the rules of the scan: which nodes are admitted, what
//! is counted, when a progress snapshot is due, and how a walk ends. The
//! root that a walker reports first has depth 0 and is an entry like any
//! other: it is counted among the directories, and it is left out, with
//! everything below it, if its own name marks it as hidden.

use vstd::prelude::*;

use crate::clock::{now_rfc3339, Timestamp};
use crate::error::VeloxError;
use crate::ident::ScanId;
use crate::types::{
    count_directories, count_files, entry_models, sum_file_sizes, EntryModel, FileEntry,
    ProgressModel, ResultModel, ScanProgress, ScanResult, ScanSession, ScanStatus,
};

verus! {

/// How a walk is to be made.
#[derive(Debug, Clone, Copy)]
pub struct ScanConfig {
    /// Nodes deeper than this below the root are left out.
    pub max_depth: usize,
    /// Whether nodes whose name starts with a dot are admitted.
    pub include_hidden: bool,
    /// Whether the walker is to follow symbolic links.
    pub follow_symlinks: bool,
    /// Least time between two progress snapshots of a running walk.
    pub progress_interval_ms: u64,
}

impl Default for ScanConfig {
    fn default() -> (c: Self)
        ensures
            c.max_depth == 100,
            !c.include_hidden,
            !c.follow_symlinks,
            c.progress_interval_ms == 50,
    {
        ScanConfig {
            max_depth: 100,
            include_hidden: false,
            follow_symlinks: false,
            progress_interval_ms: 50,
        }
    }
}

/// What kind of node the walker found.
#[derive(Debug, Clone, Copy, PartialEq, Eq, Structural)]
pub enum NodeKind {
    Directory,
    File,
    Symlink,
    Other,
}

/// What the filesystem reports of a node whose metadata could be read.
#[derive(Debug, Clone, Copy)]
pub struct NodeMetadata {
    pub len: u64,
    pub modified: Option<Timestamp>,
    pub created: Option<Timestamp>,
}

/// One node as the walker reports it.
#[derive(Debug, Clone)]
pub struct WalkNode {
    /// The node's name, with anything that is not Unicode replaced.
    pub name: String,
    pub path: String,
    /// Distance from the root; the root itself has depth 0.
    pub depth: usize,
    pub kind: NodeKind,
    /// `None` if the node's metadata could not be read.
    pub metadata: Option<NodeMetadata>,
    pub extension: Option<String>,
}

/// What a [`WalkNode`] holds.
pub struct NodeModel {
    pub name: Seq<char>,
    pub path: Seq<char>,
    pub depth: usize,
    pub kind: NodeKind,
    pub metadata: Option<NodeMetadata>,
    pub extension: Option<Seq<char>>,
}

impl View for WalkNode {
    type V = NodeModel;

    open spec fn view(&self) -> NodeModel {
        NodeModel {
            name: self.name@,
            path: self.path@,
            depth: self.depth,
            kind: self.kind,
            metadata: self.metadata,
            extension: crate::types::opt_text(self.extension),
        }
    }
}

/// One report of the walker: a node, or the failure to read one.
#[derive(Debug, Clone)]
pub enum WalkItem {
    Node(WalkNode),
    Failed,
}

/// What a [`WalkItem`] holds.
pub enum ItemModel {
    Node(NodeModel),
    Failed,
}

impl View for WalkItem {
    type V = ItemModel;

    open spec fn view(&self) -> ItemModel {
        match self {
            WalkItem::Node(n) => ItemModel::Node(n@),
            WalkItem::Failed => ItemModel::Failed,
        }
    }
}

/// Whether a name starts with a dot.
pub open spec fn starts_with_dot(name: Seq<char>) -> bool {
    name.len() > 0 && name[0] == '.'
}

impl NodeModel {
    /// A node is hidden if its name starts with a dot.
    pub open spec fn hidden(self) -> bool {
        starts_with_dot(self.name)
    }

    /// The length that the node's metadata gives, or 0 if the metadata
    /// could not be read.
    pub open spec fn size(self) -> u64 {
        match self.metadata {
            Some(md) => md.len,
            None => 0,
        }
    }

    /// The size that is recorded for the node: 0 for a directory, and the
    /// node's length for anything else.
    pub open spec fn recorded_size(self) -> u64 {
        if self.kind is Directory {
            0
        } else {
            self.size()
        }
    }

    /// When the node was last modified, as text, if that is known.
    pub open spec fn modified_text(self) -> Option<Seq<char>> {
        match self.metadata {
            Some(md) => match md.modified {
                Some(t) => t.text(),
                None => None,
            },
            None => None,
        }
    }

    /// When the node was created, as text, if that is known.
    pub open spec fn created_text(self) -> Option<Seq<char>> {
        match self.metadata {
            Some(md) => match md.created {
                Some(t) => t.text(),
                None => None,
            },
            None => None,
        }
    }

    /// The entry that records the node under the identifier `id`.
    pub open spec fn entry(self, id: Seq<char>) -> EntryModel {
        EntryModel {
            id,
            name: self.name,
            path: self.path,
            size: self.recorded_size(),
            is_directory: self.kind is Directory,
            is_file: self.kind is File,
            is_symlink: self.kind is Symlink,
            extension: self.extension,
            modified: self.modified_text(),
            created: self.created_text(),
            depth: self.depth,
            children_count: None,
        }
    }
}

/// The state of a walk.
pub struct ScannerModel {
    pub config: ScanConfig,
    pub scan_id: Seq<char>,
    pub root_path: Seq<char>,
    pub status: ScanStatus,
    /// The admitted nodes, in the order in which they were reported.
    pub entries: Seq<EntryModel>,
    /// Time of the last progress snapshot, or of the start of the walk.
    pub last_progress_ms: u64,
    /// Depth of the node whose subtree is being passed over: the last
    /// node that was left out, or a symbolic link that is not followed.
    pub pruned: Option<usize>,
}

/// Everything that one step of a walk depends on.
pub struct StepInput {
    /// Whether cancellation was found requested before the step.
    pub cancelled: bool,
    /// The identifier for the entry, should the node be admitted.
    pub entry_id: Seq<char>,
    pub item: ItemModel,
    /// Milliseconds since the scan was started.
    pub now_ms: u64,
}

/// What a walk does with one report.
#[derive(Debug, Clone, Copy, PartialEq, Eq, Structural)]
pub enum Verdict {
    /// The walk is not running: nothing happens.
    Stopped,
    /// Cancellation was requested: the walk ends.
    Cancel,
    /// The walker could not read a node: the walk goes on.
    Unreadable,
    /// The node lies in a subtree that is passed over.
    PassedOver,
    /// The node is hidden while hidden nodes are left out.
    Hidden,
    /// The node lies deeper than the configured limit.
    TooDeep,
    /// The node becomes an entry.
    Admit,
}

impl ScannerModel {
    /// Number of files admitted so far.
    pub open spec fn files(self) -> nat {
        count_files(self.entries)
    }

    /// Number of directories admitted so far.
    pub open spec fn directories(self) -> nat {
        count_directories(self.entries)
    }

    /// Bytes in the files admitted so far.
    pub open spec fn bytes(self) -> nat {
        sum_file_sizes(self.entries)
    }

    /// Whether a node at `depth` lies in the subtree being passed over.
    pub open spec fn passing_over(self, depth: usize) -> bool {
        self.pruned matches Some(d) && depth > d
    }

    /// Whether a progress snapshot is due at `now_ms`.
    pub open spec fn progress_due(self, now_ms: u64) -> bool {
        let waited = if now_ms >= self.last_progress_ms {
            now_ms - self.last_progress_ms
        } else {
            0
        };
        waited >= self.config.progress_interval_ms
    }

    /// What the walk does with `item`.
    pub open spec fn verdict(self, cancelled: bool, item: ItemModel) -> Verdict {
        if !(self.status is Scanning) {
            Verdict::Stopped
        } else if cancelled {
            Verdict::Cancel
        } else {
            match item {
                ItemModel::Failed => Verdict::Unreadable,
                ItemModel::Node(n) => if self.passing_over(n.depth) {
                    Verdict::PassedOver
                } else if !self.config.include_hidden && n.hidden() {
                    Verdict::Hidden
                } else if n.depth > self.config.max_depth {
                    Verdict::TooDeep
                } else {
                    Verdict::Admit
                },
            }
        }
    }

    /// The snapshot of the walk at `elapsed_ms`, for an observer.
    pub open spec fn snapshot(
        self,
        current_path: Seq<char>,
        elapsed_ms: u64,
        status: ScanStatus,
    ) -> ProgressModel {
        ProgressModel {
            scan_id: self.scan_id,
            current_path,
            files_scanned: self.files() as u64,
            directories_scanned: self.directories() as u64,
            bytes_scanned: self.bytes() as u64,
            progress_percent: if status is Completed {
                100
            } else {
                0
            },
            estimated_total: if status is Completed {
                Some((self.files() + self.directories()) as u64)
            } else {
                None
            },
            elapsed_ms,
            status,
        }
    }

    /// Whether the walk stays out of what lies below the admitted node
    /// `n`: a symbolic link is a leaf unless links are followed.
    pub open spec fn is_leaf(self, n: NodeModel) -> bool {
        n.kind is Symlink && !self.config.follow_symlinks
    }

    /// The state after one step. A node that is left out takes everything
    /// below it with it, and so does a symbolic link that is not followed.
    pub open spec fn step(self, input: StepInput) -> ScannerModel {
        match self.verdict(input.cancelled, input.item) {
            Verdict::Stopped => self,
            Verdict::Cancel => ScannerModel { status: ScanStatus::Cancelled, ..self },
            Verdict::Unreadable => self,
            Verdict::PassedOver => self,
            Verdict::Hidden => ScannerModel { pruned: Some(input.item->Node_0.depth), ..self },
            Verdict::TooDeep => ScannerModel { pruned: Some(input.item->Node_0.depth), ..self },
            Verdict::Admit => ScannerModel {
                entries: self.entries.push(input.item->Node_0.entry(input.entry_id)),
                pruned: if self.is_leaf(input.item->Node_0) {
                    Some(input.item->Node_0.depth)
                } else {
                    None
                },
                last_progress_ms: if self.progress_due(input.now_ms) {
                    input.now_ms
                } else {
                    self.last_progress_ms
                },
                ..self
            },
        }
    }

    /// The answer that one step gives to the driver of the walk.
    pub open spec fn answer(self, input: StepInput) -> StepModel {
        match self.verdict(input.cancelled, input.item) {
            Verdict::Stopped => StepModel::Stopped,
            Verdict::Cancel => StepModel::Cancelled(
                self.snapshot(Seq::empty(), input.now_ms, ScanStatus::Cancelled),
            ),
            Verdict::Unreadable => StepModel::Continue,
            Verdict::PassedOver => StepModel::Skipped { prune: false },
            Verdict::Hidden => StepModel::Skipped {
                prune: input.item->Node_0.kind is Directory,
            },
            Verdict::TooDeep => StepModel::Skipped {
                prune: input.item->Node_0.kind is Directory,
            },
            Verdict::Admit => if self.progress_due(input.now_ms) {
                StepModel::Progress(
                    self.step(input).snapshot(
                        input.item->Node_0.path,
                        input.now_ms,
                        ScanStatus::Scanning,
                    ),
                )
            } else {
                StepModel::Continue
            },
        }
    }

    /// Whether the walk can take `item` without its byte count leaving
    /// the range of `u64`. Only a file that the walk admits adds to the
    /// count.
    pub open spec fn fits(self, item: ItemModel) -> bool {
        self.verdict(false, item) is Admit && item->Node_0.kind is File ==> self.bytes()
            + item->Node_0.size() <= u64::MAX
    }

    /// The totals of the walk are in the range of the numbers that hold
    /// them, and no entry is counted twice. Every well-formed scanner
    /// meets this.
    pub open spec fn bounded(self) -> bool {
        &&& self.files() <= u64::MAX
        &&& self.directories() <= u64::MAX
        &&& self.bytes() <= u64::MAX
        &&& self.files() + self.directories() <= self.entries.len()
        &&& self.entries.len() <= u64::MAX
        &&& kinds_exclusive(self.entries)
    }

    /// Whether the walk has a result when the walker has nothing more to
    /// report: only a running walk has one.
    pub open spec fn yields_result(self) -> bool {
        self.status is Scanning
    }

    /// The result of the walk, had it ended now.
    pub open spec fn result(self, duration_ms: u64, completed_at: Seq<char>) -> ResultModel {
        ResultModel {
            scan_id: self.scan_id,
            root_path: self.root_path,
            total_files: self.files() as u64,
            total_directories: self.directories() as u64,
            total_size: self.bytes() as u64,
            entries: self.entries,
            duration_ms,
            completed_at,
            status: ScanStatus::Completed,
        }
    }
}

/// What the driver of a walk is to do after a step.
#[derive(Debug, Clone)]
pub enum ScanStep {
    /// Nothing: report the next node.
    Continue,
    /// Send the snapshot to the observer, then report the next node.
    Progress(ScanProgress),
    /// The node was left out. With `prune`, the walker is not to descend
    /// into it.
    Skipped { prune: bool },
    /// The walk was cancelled: send the snapshot and stop.
    Cancelled(ScanProgress),
    /// The walk is not running.
    Stopped,
}

/// What a [`ScanStep`] holds.
pub enum StepModel {
    Continue,
    Progress(ProgressModel),
    Skipped { prune: bool },
    Cancelled(ProgressModel),
    Stopped,
}

impl View for ScanStep {
    type V = StepModel;

    open spec fn view(&self) -> StepModel {
        match self {
            ScanStep::Continue => StepModel::Continue,
            ScanStep::Progress(p) => StepModel::Progress(p@),
            ScanStep::Skipped { prune } => StepModel::Skipped { prune: *prune },
            ScanStep::Cancelled(p) => StepModel::Cancelled(p@),
            ScanStep::Stopped => StepModel::Stopped,
        }
    }
}

/// Appending an entry adds it to the counts.
pub proof fn lemma_counts_push(entries: Seq<EntryModel>, e: EntryModel)
    ensures
        count_files(entries.push(e)) == count_files(entries) + if e.is_file {
            1nat
        } else {
            0nat
        },
        count_directories(entries.push(e)) == count_directories(entries) + if e.is_directory {
            1nat
        } else {
            0nat
        },
        sum_file_sizes(entries.push(e)) == sum_file_sizes(entries) + if e.is_file {
            e.size as nat
        } else {
            0nat
        },
{
    assert(entries.push(e).drop_last() =~= entries);
    assert(entries.push(e).last() == e);
}

/// No entry is both a file and a directory.
pub open spec fn kinds_exclusive(entries: Seq<EntryModel>) -> bool {
    forall|i: int| 0 <= i < entries.len() ==> !(#[trigger] entries[i].is_file && entries[i].is_directory)
}

/// Where no entry is both, files and directories together are no more
/// than the entries.
pub proof fn lemma_counts_disjoint(entries: Seq<EntryModel>)
    requires
        kinds_exclusive(entries),
    ensures
        count_files(entries) + count_directories(entries) <= entries.len(),
    decreases entries.len(),
{
    if entries.len() > 0 {
        let rest = entries.drop_last();
        assert forall|i: int| 0 <= i < rest.len() implies !(#[trigger] rest[i].is_file
            && rest[i].is_directory) by {
            assert(rest[i] == entries[i]);
        }
        lemma_counts_disjoint(rest);
    }
}

/// The error for a root that cannot be scanned, if there is one: the root
/// must exist and be a directory.
pub fn validate_root(root_path: &str, exists: bool, is_directory: bool) -> (r: Result<
    (),
    VeloxError,
>)
    ensures
        r is Ok <==> exists && is_directory,
        !exists ==> (r matches Err(VeloxError::InvalidPath(s)) && s@ == root_path@),
        exists && !is_directory ==> (r matches Err(VeloxError::InvalidPath(s)) && s@
            == root_path@ + " is not a directory"@),
{
    if !exists {
        Err(VeloxError::InvalidPath(String::from_str(root_path)))
    } else if !is_directory {
        Err(VeloxError::InvalidPath(String::from_str(root_path).concat(" is not a directory")))
    } else {
        Ok(())
    }
}

impl WalkNode {
    /// Whether the node is hidden.
    pub fn is_hidden(&self) -> (r: bool)
        ensures
            r == self@.hidden(),
    {
        self.name.as_str().unicode_len() > 0 && self.name.as_str().get_char(0) == '.'
    }

    /// The length that the node's metadata gives, or 0 without metadata.
    pub fn size(&self) -> (r: u64)
        ensures
            r == self@.size(),
    {
        match self.metadata {
            Some(md) => md.len,
            None => 0,
        }
    }

    /// The size that is recorded for the node: 0 for a directory.
    pub fn recorded_size(&self) -> (r: u64)
        ensures
            r == self@.recorded_size(),
    {
        if self.kind == NodeKind::Directory {
            0
        } else {
            self.size()
        }
    }

    /// The entry that records the node under the identifier `id`.
    pub fn into_entry(self, id: String) -> (e: FileEntry)
        ensures
            e@ == self@.entry(id@),
    {
        let size = self.recorded_size();
        let modified = match self.metadata {
            Some(md) => match md.modified {
                Some(t) => t.to_rfc3339(),
                None => None,
            },
            None => None,
        };
        let created = match self.metadata {
            Some(md) => match md.created {
                Some(t) => t.to_rfc3339(),
                None => None,
            },
            None => None,
        };
        FileEntry {
            id,
            name: self.name,
            path: self.path,
            size,
            is_directory: self.kind == NodeKind::Directory,
            is_file: self.kind == NodeKind::File,
            is_symlink: self.kind == NodeKind::Symlink,
            extension: self.extension,
            modified,
            created,
            depth: self.depth,
            children_count: None,
        }
    }
}

/// What a completed walk hands over: the snapshot that closes the stream
/// of progress, and the result.
#[derive(Debug, Clone)]
pub struct Completion {
    pub progress: ScanProgress,
    pub result: ScanResult,
}

/// One walk: the session it belongs to, its configuration, and what it
/// has gathered so far.
#[derive(Debug)]
pub struct DirectoryScanner {
    config: ScanConfig,
    session: ScanSession,
    status: ScanStatus,
    entries: Vec<FileEntry>,
    total_files: u64,
    total_directories: u64,
    total_size: u64,
    last_progress_ms: u64,
    pruned: Option<usize>,
}

impl View for DirectoryScanner {
    type V = ScannerModel;

    closed spec fn view(&self) -> ScannerModel {
        ScannerModel {
            config: self.config,
            scan_id: self.session.id.text(),
            root_path: self.session.root_path@,
            status: self.status,
            entries: entry_models(self.entries@),
            last_progress_ms: self.last_progress_ms,
            pruned: self.pruned,
        }
    }
}

impl ScannerModel {
    /// The state after an attempt to start the walk. Only an idle walk
    /// starts; it fails if the root is missing or is not a directory.
    pub open spec fn start(self, root_exists: bool, root_is_directory: bool, now_ms: u64) -> ScannerModel {
        if !(self.status is Idle) {
            self
        } else if root_exists && root_is_directory {
            ScannerModel { status: ScanStatus::Scanning, last_progress_ms: now_ms, ..self }
        } else {
            ScannerModel { status: ScanStatus::Error, ..self }
        }
    }
}

impl DirectoryScanner {
    /// The running totals are those of the entries, and no entry is both
    /// a file and a directory.
    pub closed spec fn wf(&self) -> bool {
        &&& self.total_files == count_files(entry_models(self.entries@))
        &&& self.total_directories == count_directories(entry_models(self.entries@))
        &&& self.total_size == sum_file_sizes(entry_models(self.entries@))
        &&& kinds_exclusive(entry_models(self.entries@))
    }

    /// The session that the walk belongs to.
    pub closed spec fn session_model(&self) -> ScanSession {
        self.session
    }

    /// A scanner for `session` that has not started to walk.
    pub fn new(session: ScanSession, config: ScanConfig) -> (s: Self)
        ensures
            s.wf(),
            s.session_model() == session,
            s@ == (ScannerModel {
                config,
                scan_id: session.id.text(),
                root_path: session.root_path@,
                status: ScanStatus::Idle,
                entries: Seq::empty(),
                last_progress_ms: 0,
                pruned: None,
            }),
    {
        let s = DirectoryScanner {
            config,
            session,
            status: ScanStatus::Idle,
            entries: Vec::new(),
            total_files: 0,
            total_directories: 0,
            total_size: 0,
            last_progress_ms: 0,
            pruned: None,
        };
        assert(entry_models(s.entries@) =~= Seq::empty());
        s
    }

    /// The configuration of the walk.
    pub fn config(&self) -> (c: ScanConfig)
        ensures
            c == self@.config,
    {
        self.config
    }

    /// The session that the walk belongs to.
    pub fn session(&self) -> (s: &ScanSession)
        ensures
            *s == self.session_model(),
            s.id.text() == self@.scan_id,
            s.root_path@ == self@.root_path,
    {
        &self.session
    }

    /// Where the walk stands.
    pub fn status(&self) -> (s: ScanStatus)
        ensures
            s == self@.status,
    {
        self.status
    }

    /// Number of entries gathered so far.
    pub fn entry_count(&self) -> (n: usize)
        ensures
            n == self@.entries.len(),
    {
        self.entries.len()
    }

    /// Starts the walk of a root of which the caller has found out
    /// whether it exists and whether it is a directory. `now_ms` is the
    /// time of the start, from which the first progress interval runs.
    pub fn start(&mut self, root_exists: bool, root_is_directory: bool, now_ms: u64) -> (r: Result<
        (),
        VeloxError,
    >)
        requires
            old(self).wf(),
        ensures
            final(self).wf(),
            final(self).session_model() == old(self).session_model(),
            final(self)@ == old(self)@.start(root_exists, root_is_directory, now_ms),
            r is Ok <==> old(self)@.status is Idle && root_exists && root_is_directory,
            !(old(self)@.status is Idle) ==> (r matches Err(VeloxError::ScanInProgress(s)) && s@
                == old(self)@.scan_id),
            old(self)@.status is Idle && !root_exists ==> (r matches Err(
                VeloxError::InvalidPath(s),
            ) && s@ == old(self)@.root_path),
            old(self)@.status is Idle && root_exists && !root_is_directory ==> (r matches Err(
                VeloxError::InvalidPath(s),
            ) && s@ == old(self)@.root_path + " is not a directory"@),
    {
        if self.status != ScanStatus::Idle {
            return Err(VeloxError::ScanInProgress(self.session.id.to_string()));
        }
        let checked = validate_root(self.session.root_path.as_str(), root_exists, root_is_directory);
        match checked {
            Ok(_) => {
                self.status = ScanStatus::Scanning;
                self.last_progress_ms = now_ms;
            },
            Err(_) => {
                self.status = ScanStatus::Error;
            },
        }
        checked
    }

    /// Whether a progress snapshot is due at `now_ms`.
    pub fn progress_due(&self, now_ms: u64) -> (r: bool)
        ensures
            r == self@.progress_due(now_ms),
    {
        let waited = if now_ms >= self.last_progress_ms {
            now_ms - self.last_progress_ms
        } else {
            0
        };
        waited >= self.config.progress_interval_ms
    }

    /// What holds of the totals of every well-formed scanner.
    pub proof fn totals_fit(&self)
        requires
            self.wf(),
        ensures
            self@.bounded(),
    {
        assert(self.entries@.len() == self.entries.len());
        assert(entry_models(self.entries@).len() == self.entries@.len());
        lemma_counts_disjoint(entry_models(self.entries@));
    }

    /// Whether the walk can take `item`: whether, if `item` is a file
    /// that the walk admits, the bytes counted so far and the size of the
    /// file together stay in the range of `u64`.
    pub fn accepts(&self, item: &WalkItem) -> (r: bool)
        requires
            self.wf(),
        ensures
            r == self@.fits(item@),
    {
        match self.verdict(false, item) {
            Verdict::Admit => match item {
                WalkItem::Node(n) => n.kind != NodeKind::File || n.size() <= u64::MAX
                    - self.total_size,
                WalkItem::Failed => true,
            },
            _ => true,
        }
    }

    /// The snapshot of the walk for an observer.
    pub fn snapshot(&self, current_path: String, elapsed_ms: u64, status: ScanStatus) -> (p:
        ScanProgress)
        requires
            self.wf(),
        ensures
            p@ == self@.snapshot(current_path@, elapsed_ms, status),
    {
        proof {
            assert(self.entries@.len() == self.entries.len());
            lemma_counts_disjoint(entry_models(self.entries@));
        }
        let completed = status == ScanStatus::Completed;
        ScanProgress {
            scan_id: self.session.id.to_string(),
            current_path,
            files_scanned: self.total_files,
            directories_scanned: self.total_directories,
            bytes_scanned: self.total_size,
            progress_percent: if completed {
                100
            } else {
                0
            },
            estimated_total: if completed {
                Some(self.total_files + self.total_directories)
            } else {
                None
            },
            elapsed_ms,
            status,
        }
    }

    /// What the walk does with `item`, given whether cancellation was
    /// requested.
    pub fn verdict(&self, cancelled: bool, item: &WalkItem) -> (v: Verdict)
        ensures
            v == self@.verdict(cancelled, item@),
    {
        if self.status != ScanStatus::Scanning {
            return Verdict::Stopped;
        }
        if cancelled {
            return Verdict::Cancel;
        }
        match item {
            WalkItem::Failed => Verdict::Unreadable,
            WalkItem::Node(node) => {
                let passing_over = match self.pruned {
                    Some(d) => node.depth > d,
                    None => false,
                };
                if passing_over {
                    Verdict::PassedOver
                } else if !self.config.include_hidden && node.is_hidden() {
                    Verdict::Hidden
                } else if node.depth > self.config.max_depth {
                    Verdict::TooDeep
                } else {
                    Verdict::Admit
                }
            },
        }
    }

    /// Makes `node` an entry under the identifier `entry_id` and adds it
    /// to the totals.
    fn record(&mut self, node: WalkNode, entry_id: String)
        requires
            old(self).wf(),
            node@.kind is File ==> old(self)@.bytes() + node@.size() <= u64::MAX,
        ensures
            final(self).wf(),
            final(self).session_model() == old(self).session_model(),
            final(self)@ == (ScannerModel {
                entries: old(self)@.entries.push(node@.entry(entry_id@)),
                ..old(self)@
            }),
    {
        let ghost before = entry_models(self.entries@);
        let ghost added = node@.entry(entry_id@);
        let is_directory = node.kind == NodeKind::Directory;
        let is_file = node.kind == NodeKind::File;
        let size = node.size();
        self.entries.push(node.into_entry(entry_id));
        proof {
            assert(self.entries@.len() == self.entries.len());
            assert(entry_models(self.entries@) =~= before.push(added));
            lemma_counts_push(before, added);
            lemma_counts_disjoint(before);
            assert forall|i: int| 0 <= i < before.push(added).len() implies !(
            #[trigger] before.push(added)[i].is_file && before.push(added)[i].is_directory) by {
                if i < before.len() {
                    assert(before.push(added)[i] == before[i]);
                }
            }
        }
        if is_directory {
            self.total_directories = self.total_directories + 1;
        } else if is_file {
            self.total_files = self.total_files + 1;
            self.total_size = self.total_size + size;
        }
    }

    /// Takes one report of the walker, with everything the answer depends
    /// on given by the caller: whether cancellation was requested, the
    /// identifier for the entry that the node may become, and the time.
    pub fn step(&mut self, cancelled: bool, entry_id: String, item: WalkItem, now_ms: u64) -> (r:
        ScanStep)
        requires
            old(self).wf(),
            old(self)@.fits(item@),
        ensures
            final(self).wf(),
            final(self).session_model() == old(self).session_model(),
            final(self)@ == old(self)@.step(
                StepInput { cancelled, entry_id: entry_id@, item: item@, now_ms },
            ),
            r@ == old(self)@.answer(
                StepInput { cancelled, entry_id: entry_id@, item: item@, now_ms },
            ),
    {
        let verdict = self.verdict(cancelled, &item);
        match verdict {
            Verdict::Stopped => {
                return ScanStep::Stopped;
            },
            Verdict::Cancel => {
                let progress = self.snapshot(String::new(), now_ms, ScanStatus::Cancelled);
                self.status = ScanStatus::Cancelled;
                return ScanStep::Cancelled(progress);
            },
            _ => {},
        }
        match item {
            WalkItem::Failed => ScanStep::Continue,
            WalkItem::Node(node) => match verdict {
                Verdict::PassedOver => ScanStep::Skipped { prune: false },
                Verdict::Hidden | Verdict::TooDeep => {
                    self.pruned = Some(node.depth);
                    ScanStep::Skipped { prune: node.kind == NodeKind::Directory }
                },
                _ => {
                    let due = self.progress_due(now_ms);
                    let path = node.path.clone();
                    let leaf = node.kind == NodeKind::Symlink && !self.config.follow_symlinks;
                    let depth = node.depth;
                    self.record(node, entry_id);
                    self.pruned = if leaf {
                        Some(depth)
                    } else {
                        None
                    };
                    if due {
                        self.last_progress_ms = now_ms;
                        ScanStep::Progress(self.snapshot(path, now_ms, ScanStatus::Scanning))
                    } else {
                        ScanStep::Continue
                    }
                },
            },
        }
    }

    /// Takes one report of the walker. It reads the session's
    /// cancellation flag, draws a fresh identifier if the node is to
    /// become an entry, and then does what [`DirectoryScanner::step`] does
    /// with them.
    ///
    /// Panics if the operating system fails to give random numbers for
    /// the identifier.
    pub fn visit(&mut self, item: WalkItem, now_ms: u64) -> (r: ScanStep)
        requires
            old(self).wf(),
            old(self)@.fits(item@),
        ensures
            final(self).wf(),
            final(self).session_model() == old(self).session_model(),
            exists|input: StepInput|
                {
                    &&& input.item == item@
                    &&& input.now_ms == now_ms
                    &&& final(self)@ == #[trigger] old(self)@.step(input)
                    &&& r@ == old(self)@.answer(input)
                },
    {
        let cancelled = self.session.is_cancelled();
        let entry_id = match self.verdict(cancelled, &item) {
            Verdict::Admit => ScanId::new().to_string(),
            _ => String::new(),
        };
        let ghost input = StepInput { cancelled, entry_id: entry_id@, item: item@, now_ms };
        let r = self.step(cancelled, entry_id, item, now_ms);
        assert(input.item == item@ && input.now_ms == now_ms && self@ == old(self)@.step(input)
            && r@ == old(self)@.answer(input));
        r
    }

    /// Ends the walk once the walker has nothing more to report, with the
    /// time of completion given by the caller. Only a running walk has a
    /// result; a cancelled one never does.
    pub fn finish_at(self, elapsed_ms: u64, completed_at: String) -> (r: Result<
        Completion,
        VeloxError,
    >)
        requires
            self.wf(),
        ensures
            r is Ok <==> self@.yields_result(),
            r matches Ok(c) ==> {
                &&& c.progress@ == self@.snapshot(
                    Seq::empty(),
                    elapsed_ms,
                    ScanStatus::Completed,
                )
                &&& c.result@ == self@.result(elapsed_ms, completed_at@)
                &&& c.result@.totals_match()
            },
            self@.status is Cancelled ==> r matches Err(VeloxError::ScanCancelled),
            !(self@.status is Scanning) && !(self@.status is Cancelled) ==> (r matches Err(
                VeloxError::NoActiveScan(s),
            ) && s@ == self@.scan_id),
    {
        match self.status {
            ScanStatus::Scanning => {
                let progress = self.snapshot(String::new(), elapsed_ms, ScanStatus::Completed);
                let result = ScanResult {
                    scan_id: self.session.id.to_string(),
                    root_path: self.session.root_path.clone(),
                    total_files: self.total_files,
                    total_directories: self.total_directories,
                    total_size: self.total_size,
                    entries: self.entries,
                    duration_ms: elapsed_ms,
                    completed_at,
                    status: ScanStatus::Completed,
                };
                Ok(Completion { progress, result })
            },
            ScanStatus::Cancelled => Err(VeloxError::ScanCancelled),
            _ => Err(VeloxError::NoActiveScan(self.session.id.to_string())),
        }
    }

    /// Ends the walk once the walker has nothing more to report, and
    /// stamps the result with the current time.
    ///
    /// Panics if the system clock is set before 1970.
    pub fn finish(self, elapsed_ms: u64) -> (r: Result<Completion, VeloxError>)
        requires
            self.wf(),
        ensures
            r is Ok <==> self@.yields_result(),
            r matches Ok(c) ==> {
                &&& c.progress@ == self@.snapshot(
                    Seq::empty(),
                    elapsed_ms,
                    ScanStatus::Completed,
                )
                &&& c.result@ == self@.result(elapsed_ms, c.result@.completed_at)
                &&& c.result@.totals_match()
                &&& exists|t: Timestamp| t.text() == Some(c.result@.completed_at)
            },
            self@.status is Cancelled ==> r matches Err(VeloxError::ScanCancelled),
            !(self@.status is Scanning) && !(self@.status is Cancelled) ==> (r matches Err(
                VeloxError::NoActiveScan(s),
            ) && s@ == self@.scan_id),
    {
        let completed_at = now_rfc3339();
        self.finish_at(elapsed_ms, completed_at)
    }
}

} // verus!
