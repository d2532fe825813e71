//! The compact progress line shown while a scan runs.

use vstd::prelude::*;
use vstd::string::StringExecFns;
use crate::scanner::progress::ScanProgress;
use crate::size::{format_count, format_size, grouped_digits, spec_format_size};

verus! {

/// The frames of the spinner, in the order in which they are shown.
pub const SPINNER: [&'static str; 10] = ["⠋", "⠙", "⠹", "⠸", "⠼", "⠴", "⠦", "⠧", "⠇", "⠏"];

/// The progress line: spinner frame, number of entries, bytes scanned.
pub open spec fn spec_progress_indicator(progress: ScanProgress, spinner_frame: usize) -> Seq<char> {
    SPINNER[spinner_frame as int % 10]@ + " "@ + grouped_digits(
        (progress.files_scanned + progress.dirs_scanned) as nat,
    ) + " files, "@ + spec_format_size(progress.bytes_scanned)
}

/// Compact progress indicator for the header.
pub fn progress_indicator(progress: &ScanProgress, spinner_frame: usize) -> (s: String)
    requires
        progress.files_scanned + progress.dirs_scanned <= u64::MAX,
    ensures
        s@ == spec_progress_indicator(*progress, spinner_frame),
{
    let frame = SPINNER[spinner_frame % 10];
    assert(frame@ == SPINNER[spinner_frame as int % 10]@);
    let mut s = String::from_str(frame);
    s.append(" ");
    let count = format_count(progress.total_entries());
    s.append(count.as_str());
    s.append(" files, ");
    let size = format_size(progress.bytes_scanned);
    s.append(size.as_str());
    assert(s@ =~= spec_progress_indicator(*progress, spinner_frame));
    s
}

} // verus!
