use vstd::prelude::*;
use vstd::string::StringExecFns;

verus! {

/// What can go wrong. Paths and causes are carried as text.
#[derive(Debug, Clone)]
pub enum DuxError {
    /// The path to scan does not exist.
    PathNotFound(String),
    /// The path to scan is no directory.
    NotADirectory(String),
    /// An entry could not be read for want of permission.
    PermissionDenied(String),
    /// Any other filesystem error, by its text.
    Io(String),
    /// The scan was aborted on request.
    Cancelled,
    /// A cache file that is malformed, truncated, damaged, of another version or stale.
    Cache(String),
}

pub type Result<T> = std::result::Result<T, DuxError>;

impl DuxError {
    pub open spec fn spec_message(&self) -> Seq<char> {
        match self {
            DuxError::PathNotFound(p) => "Path does not exist: "@ + p@,
            DuxError::NotADirectory(p) => "Path is not a directory: "@ + p@,
            DuxError::PermissionDenied(p) => "Permission denied: "@ + p@,
            DuxError::Io(e) => "IO error: "@ + e@,
            DuxError::Cancelled => "Scan was cancelled"@,
            DuxError::Cache(e) => "Cache error: "@ + e@,
        }
    }

    /// The error as a line of text for the user.
    pub fn message(&self) -> (s: String)
        ensures
            s@ == self.spec_message(),
    {
        match self {
            DuxError::PathNotFound(p) => String::from_str("Path does not exist: ").concat(
                p.as_str(),
            ),
            DuxError::NotADirectory(p) => String::from_str("Path is not a directory: ").concat(
                p.as_str(),
            ),
            DuxError::PermissionDenied(p) => String::from_str("Permission denied: ").concat(
                p.as_str(),
            ),
            DuxError::Io(e) => String::from_str("IO error: ").concat(e.as_str()),
            DuxError::Cancelled => String::from_str("Scan was cancelled"),
            DuxError::Cache(e) => String::from_str("Cache error: ").concat(e.as_str()),
        }
    }
}

} // verus!
