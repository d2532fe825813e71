//! The scanner's side of the library: its configuration, the shared progress
//! counters, the virtual-path filter and what each walked entry does to the tree.

pub mod filter;
pub mod progress;
pub mod session;
pub mod walker;

pub use filter::is_virtual_or_slow_path;
pub use progress::{ScanMessage, ScanProgress};
pub use session::{ScanPhase, ScanSession, Step, WalkEvent};
pub use walker::{CancellationToken, ScanConfig, Scanner, SharedProgress};
