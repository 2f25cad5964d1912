//! The progress record of a synchronisation session and the entries that a
//! session transfers.
use vstd::prelude::*;
use vstd::string::*;

verus! {

/// Direction of one synchronisation session; fixed for its lifetime.
#[derive(Debug, Clone, Copy, PartialEq, Eq, Structural)]
pub enum SyncDirection {
    LocalToCloud,
    CloudToLocal,
}

/// Status of the current session. `Paused` is a real state, reached from
/// `Syncing` and left by resuming; `Cancelled` is a terminal cause distinct
/// from `Error`.
#[derive(Debug, Clone, PartialEq, Eq)]
pub enum SyncStatus {
    Idle,
    Scanning,
    Syncing,
    Paused,
    Completed,
    Cancelled,
    Error(String),
}

/// Mathematical view of a `SyncStatus`.
pub enum StatusView {
    Idle,
    Scanning,
    Syncing,
    Paused,
    Completed,
    Cancelled,
    Error(Seq<char>),
}

impl View for SyncStatus {
    type V = StatusView;

    open spec fn view(&self) -> StatusView {
        match self {
            SyncStatus::Idle => StatusView::Idle,
            SyncStatus::Scanning => StatusView::Scanning,
            SyncStatus::Syncing => StatusView::Syncing,
            SyncStatus::Paused => StatusView::Paused,
            SyncStatus::Completed => StatusView::Completed,
            SyncStatus::Cancelled => StatusView::Cancelled,
            SyncStatus::Error(m) => StatusView::Error(m@),
        }
    }
}

impl SyncStatus {
    /// A copy of the status.
    pub fn copy(&self) -> (r: SyncStatus)
        ensures
            r@ == self@,
    {
        match self {
            SyncStatus::Idle => SyncStatus::Idle,
            SyncStatus::Scanning => SyncStatus::Scanning,
            SyncStatus::Syncing => SyncStatus::Syncing,
            SyncStatus::Paused => SyncStatus::Paused,
            SyncStatus::Completed => SyncStatus::Completed,
            SyncStatus::Cancelled => SyncStatus::Cancelled,
            SyncStatus::Error(m) => SyncStatus::Error(m.clone()),
        }
    }

    /// Whether a session is in flight (scanning, syncing or paused).
    pub fn is_active(&self) -> (r: bool)
        ensures
            r == spec_is_active(self@),
    {
        match self {
            SyncStatus::Scanning | SyncStatus::Syncing | SyncStatus::Paused => true,
            _ => false,
        }
    }
}

pub open spec fn spec_is_active(s: StatusView) -> bool {
    s is Scanning || s is Syncing || s is Paused
}

/// One file to transfer: its remote key and its size in bytes. `is_dir` is
/// always false: directories are traversed, not transferred.
#[derive(Debug, Clone, PartialEq, Eq)]
pub struct FileEntry {
    pub path: String,
    pub size: u64,
    pub is_dir: bool,
}

pub struct EntryView {
    pub path: Seq<char>,
    pub size: u64,
    pub is_dir: bool,
}

impl View for FileEntry {
    type V = EntryView;

    open spec fn view(&self) -> EntryView {
        EntryView { path: self.path@, size: self.size, is_dir: self.is_dir }
    }
}

impl FileEntry {
    /// A copy of the entry.
    pub fn copy(&self) -> (r: FileEntry)
        ensures
            r@ == self@,
    {
        FileEntry { path: self.path.clone(), size: self.size, is_dir: self.is_dir }
    }
}

/// Total size of a sequence of entries.
pub open spec fn total_size(s: Seq<EntryView>) -> nat
    decreases s.len(),
{
    if s.len() == 0 {
        0
    } else {
        total_size(s.drop_last()) + s.last().size as nat
    }
}

/// The sizes of a prefix never add up to more than those of the whole.
pub proof fn lemma_total_size_prefix(s: Seq<EntryView>, i: int, j: int)
    requires
        0 <= i <= j <= s.len(),
    ensures
        total_size(s.take(i)) <= total_size(s.take(j)),
    decreases j - i,
{
    if i < j {
        lemma_total_size_prefix(s, i, j - 1);
        assert(s.take(j).drop_last() =~= s.take(j - 1));
    }
}

/// Adding the next entry of `s` to a prefix adds its size.
pub proof fn lemma_total_size_step(s: Seq<EntryView>, i: int)
    requires
        0 <= i < s.len(),
    ensures
        total_size(s.take(i + 1)) == total_size(s.take(i)) + s[i].size,
{
    assert(s.take(i + 1).drop_last() =~= s.take(i));
}

/// A snapshot of the progress of the current session.
///
/// `bytes_per_second` is the whole number of bytes moved per second since the
/// session started; `eta_seconds` the whole number of seconds still needed at
/// that rate, when bytes have moved and some remain.
#[derive(Debug, Clone, PartialEq, Eq)]
pub struct SyncProgress {
    pub status: SyncStatus,
    pub direction: Option<SyncDirection>,
    pub total_files: u64,
    pub completed_files: u64,
    pub total_bytes: u64,
    pub transferred_bytes: u64,
    pub current_file: Option<String>,
    pub bytes_per_second: u64,
    pub eta_seconds: Option<u64>,
}

pub struct ProgressView {
    pub status: StatusView,
    pub direction: Option<SyncDirection>,
    pub total_files: u64,
    pub completed_files: u64,
    pub total_bytes: u64,
    pub transferred_bytes: u64,
    pub current_file: Option<Seq<char>>,
    pub bytes_per_second: u64,
    pub eta_seconds: Option<u64>,
}

/// View of an optional string.
pub open spec fn opt_string_view(o: Option<String>) -> Option<Seq<char>> {
    match o {
        Some(s) => Some(s@),
        None => None,
    }
}

impl View for SyncProgress {
    type V = ProgressView;

    open spec fn view(&self) -> ProgressView {
        ProgressView {
            status: self.status@,
            direction: self.direction,
            total_files: self.total_files,
            completed_files: self.completed_files,
            total_bytes: self.total_bytes,
            transferred_bytes: self.transferred_bytes,
            current_file: opt_string_view(self.current_file),
            bytes_per_second: self.bytes_per_second,
            eta_seconds: self.eta_seconds,
        }
    }
}

/// The record before any session: idle, no direction, every counter zero.
pub open spec fn idle_progress() -> ProgressView {
    ProgressView {
        status: StatusView::Idle,
        direction: None,
        total_files: 0,
        completed_files: 0,
        total_bytes: 0,
        transferred_bytes: 0,
        current_file: None,
        bytes_per_second: 0,
        eta_seconds: None,
    }
}

/// A copy of an optional string.
pub fn copy_opt_string(o: &Option<String>) -> (r: Option<String>)
    ensures
        opt_string_view(r) == opt_string_view(*o),
{
    match o {
        Some(s) => Some(s.clone()),
        None => None,
    }
}

impl Default for SyncProgress {
    fn default() -> (r: SyncProgress)
        ensures
            r@ == idle_progress(),
    {
        SyncProgress {
            status: SyncStatus::Idle,
            direction: None,
            total_files: 0,
            completed_files: 0,
            total_bytes: 0,
            transferred_bytes: 0,
            current_file: None,
            bytes_per_second: 0,
            eta_seconds: None,
        }
    }
}

/// Why a session, or an operation on it, did not succeed.
#[derive(Debug, Clone, PartialEq, Eq)]
pub enum SyncError {
    /// A remote store operation failed.
    S3Error(String),
    /// The local file system could not be read or written.
    IoError(String),
    /// An upload item's local file could not be resolved.
    SourceNotFound(String),
    /// The session was cancelled cooperatively.
    Cancelled,
    /// The operation needs a session in a state that the current one is not in.
    NoActiveSync,
    /// A new session was asked for while one is in flight.
    SessionActive,
}

pub open spec fn spec_sync_message(e: SyncError) -> Seq<char> {
    match e {
        SyncError::S3Error(m) => "S3 error: "@ + m@,
        SyncError::IoError(m) => "IO error: "@ + m@,
        SyncError::SourceNotFound(m) => "Source file not found: "@ + m@,
        SyncError::Cancelled => "Sync cancelled"@,
        SyncError::NoActiveSync => "No active sync"@,
        SyncError::SessionActive => "A sync is already in progress"@,
    }
}

impl SyncError {
    /// Text describing the error.
    pub fn message(&self) -> (r: String)
        ensures
            r@ == spec_sync_message(*self),
    {
        match self {
            SyncError::S3Error(m) => {
                let mut r = String::from_str("S3 error: ");
                r.append(m.as_str());
                r
            },
            SyncError::IoError(m) => {
                let mut r = String::from_str("IO error: ");
                r.append(m.as_str());
                r
            },
            SyncError::SourceNotFound(m) => {
                let mut r = String::from_str("Source file not found: ");
                r.append(m.as_str());
                r
            },
            SyncError::Cancelled => String::from_str("Sync cancelled"),
            SyncError::NoActiveSync => String::from_str("No active sync"),
            SyncError::SessionActive => String::from_str("A sync is already in progress"),
        }
    }
}

} // verus!
