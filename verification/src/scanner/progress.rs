use vstd::prelude::*;

verus! {

/// Scanning progress statistics: a snapshot of the counters.
#[derive(Debug, Clone)]
pub struct ScanProgress {
    /// Number of files scanned.
    pub files_scanned: u64,
    /// Number of directories scanned.
    pub dirs_scanned: u64,
    /// Total bytes scanned so far.
    pub bytes_scanned: u64,
    /// Number of errors encountered.
    pub errors: u64,
    /// The entry scanned last.
    pub current_path: Option<String>,
}

/// What the scanner reports while it runs. `Completed` and `Cancelled` end
/// the stream; exactly one of them comes, and `Finalizing` before `Completed`.
#[derive(Debug, Clone)]
pub enum ScanMessage {
    /// Started scanning a directory.
    StartedDirectory(String),
    /// Progress update.
    Progress(ScanProgress),
    /// Aggregating sizes and sorting.
    Finalizing,
    /// Scan completed.
    Completed,
    /// Scan was cancelled.
    Cancelled,
    /// Error during scanning.
    Error(String),
}

impl ScanProgress {
    /// Nothing scanned yet.
    pub fn new() -> (p: ScanProgress)
        ensures
            p.files_scanned == 0,
            p.dirs_scanned == 0,
            p.bytes_scanned == 0,
            p.errors == 0,
            p.current_path is None,
    {
        ScanProgress {
            files_scanned: 0,
            dirs_scanned: 0,
            bytes_scanned: 0,
            errors: 0,
            current_path: None,
        }
    }

    /// Files and directories scanned, together.
    pub fn total_entries(&self) -> (n: u64)
        requires
            self.files_scanned + self.dirs_scanned <= u64::MAX,
        ensures
            n == self.files_scanned + self.dirs_scanned,
    {
        self.files_scanned + self.dirs_scanned
    }
}

impl Default for ScanProgress {
    fn default() -> (p: ScanProgress)
        ensures
            p.files_scanned == 0,
            p.dirs_scanned == 0,
            p.bytes_scanned == 0,
            p.errors == 0,
            p.current_path is None,
    {
        ScanProgress::new()
    }
}

impl ScanMessage {
    /// Whether the stream ends with this message.
    pub fn is_terminal(&self) -> (b: bool)
        ensures
            b == (self is Completed || self is Cancelled),
    {
        match self {
            ScanMessage::Completed => true,
            ScanMessage::Cancelled => true,
            _ => false,
        }
    }
}

} // verus!
