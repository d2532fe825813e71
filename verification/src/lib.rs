//! Analysis core of a terminal disk-usage analyzer: a sized directory tree,
//! the cache file framing, derived views and the browsing state machine.

pub mod app;
pub mod cache;
pub mod error;
pub mod paths;
pub mod scanner;
pub mod size;
pub mod text;
pub mod tree;
pub mod views;

pub use tree::{DiskTree, NodeId, NodeKind, Timestamp, TreeNode};
pub use error::{DuxError, Result};
pub use cache::{
    cache_path_for, is_cache_valid, spot_check_mtimes, CacheMetadata, CachedScanConfig,
    CACHE_MAGIC, CACHE_VERSION,
};
pub use scanner::{CancellationToken, ScanConfig, ScanMessage, ScanProgress, Scanner};
pub use size::{format_count, format_size, format_size_short};
