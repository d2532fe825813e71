use vstd::prelude::*;
use crate::tree::arena::DiskTree;
use crate::tree::model::{at, count_live};
use crate::tree::node::Timestamp;

verus! {

/// Current cache format version; it changes with the format.
pub const CACHE_VERSION: u32 = 1;

/// Magic bytes identifying a cache file: the letters `DUXC`.
pub const CACHE_MAGIC: [u8; 4] = [0x44, 0x55, 0x58, 0x43];

/// Scan configuration that affects cache validity.
#[derive(Debug, Clone, Copy, PartialEq, Eq, Structural)]
pub struct CachedScanConfig {
    /// Whether symlinks were followed during the scan.
    pub follow_symlinks: bool,
    /// Whether the scan stayed on one filesystem.
    pub same_filesystem: bool,
    /// Maximum depth that was scanned.
    pub max_depth: Option<usize>,
}

/// Metadata stored with a cached tree.
#[derive(Debug, Clone)]
pub struct CacheMetadata {
    /// Cache format version.
    pub version: u32,
    /// Root path that was scanned.
    pub root_path: String,
    /// When the scan was performed.
    pub scan_time: Timestamp,
    /// Modification time of the root directory at scan time.
    pub root_mtime: Timestamp,
    /// Total size of the scanned tree.
    pub total_size: u64,
    /// Number of nodes in the tree.
    pub node_count: usize,
    /// Scan configuration used.
    pub config: CachedScanConfig,
}

impl CacheMetadata {
    /// The metadata to store with a tree: the current format version, the root
    /// that was scanned and when, the root's modification time, the totals of
    /// the tree, and the scan configuration.
    pub fn for_tree(
        tree: &DiskTree,
        root_path: String,
        scan_time: Timestamp,
        root_mtime: Timestamp,
        config: CachedScanConfig,
    ) -> (m: CacheMetadata)
        requires
            tree.wf(),
        ensures
            m.version == CACHE_VERSION,
            m.root_path == root_path,
            m.scan_time == scan_time,
            m.root_mtime == root_mtime,
            m.total_size == at(tree@, 0).size,
            m.node_count == count_live(tree@, tree@.len() as int),
            m.config == config,
    {
        CacheMetadata {
            version: CACHE_VERSION,
            root_path,
            scan_time,
            root_mtime,
            total_size: tree.total_size(),
            node_count: tree.live_count(),
            config,
        }
    }
}

} // verus!
