use std::sync::atomic::{AtomicBool, AtomicU64, Ordering};
use std::sync::Arc;
use vstd::prelude::*;
use crate::paths::same_text;
use crate::scanner::progress::ScanProgress;
use crate::tree::arena::DiskTree;
use crate::tree::model::{
    added, aggregated, at, children_sorted, live, same_but_totals, with_mtime, with_size, Slots,
};
use crate::tree::node::{index_of, NodeId, NodeKind, Timestamp};

verus! {

/// Scanner configuration.
#[derive(Debug, Clone)]
pub struct ScanConfig {
    /// Follow symbolic links.
    pub follow_symlinks: bool,
    /// Maximum depth to scan (`None` for no limit).
    pub max_depth: Option<usize>,
    /// Stay on one filesystem: do not cross mount points.
    pub same_filesystem: bool,
    /// Number of parallel threads (0 lets the walker choose).
    pub num_threads: usize,
}

impl ScanConfig {
    /// The defaults: symlinks are not followed, no depth limit, one filesystem,
    /// the walker chooses the number of threads.
    pub fn new() -> (c: ScanConfig)
        ensures
            !c.follow_symlinks,
            c.max_depth is None,
            c.same_filesystem,
            c.num_threads == 0,
    {
        ScanConfig { follow_symlinks: false, max_depth: None, same_filesystem: true, num_threads: 0 }
    }
}

impl Default for ScanConfig {
    fn default() -> (c: ScanConfig)
        ensures
            !c.follow_symlinks,
            c.max_depth is None,
            c.same_filesystem,
            c.num_threads == 0,
    {
        ScanConfig::new()
    }
}

/// Cancellation token for stopping scans: one flag shared by all its clones.
/// Another thread may set the flag at any moment, so nothing is promised about
/// what a reader finds.
#[derive(Debug, Clone)]
pub struct CancellationToken {
    cancelled: Arc<AtomicBool>,
}

impl CancellationToken {
    /// A token whose flag is not set.
    pub fn new() -> CancellationToken {
        CancellationToken { cancelled: Arc::new(AtomicBool::new(false)) }
    }

    /// Set the flag. It stays set.
    pub fn cancel(&self) {
        self.cancelled.store(true, Ordering::SeqCst);
    }

    /// Read the flag.
    pub fn is_cancelled(&self) -> bool {
        self.cancelled.load(Ordering::SeqCst)
    }
}

/// Progress counters shared between the thread that builds the tree and the
/// heartbeat that reports them. The counters wrap around on overflow. Another
/// thread may change them at any moment, so nothing is promised about what a
/// reader finds.
pub struct SharedProgress {
    files_scanned: AtomicU64,
    dirs_scanned: AtomicU64,
    bytes_scanned: AtomicU64,
    errors: AtomicU64,
    done: AtomicBool,
}

impl SharedProgress {
    /// All counters at 0, not done.
    pub fn new() -> SharedProgress {
        SharedProgress {
            files_scanned: AtomicU64::new(0),
            dirs_scanned: AtomicU64::new(0),
            bytes_scanned: AtomicU64::new(0),
            errors: AtomicU64::new(0),
            done: AtomicBool::new(false),
        }
    }

    pub fn add_file(&self) {
        self.files_scanned.fetch_add(1, Ordering::Relaxed);
    }

    pub fn add_dir(&self) {
        self.dirs_scanned.fetch_add(1, Ordering::Relaxed);
    }

    pub fn add_bytes(&self, bytes: u64) {
        self.bytes_scanned.fetch_add(bytes, Ordering::Relaxed);
    }

    pub fn add_error(&self) {
        self.errors.fetch_add(1, Ordering::Relaxed);
    }

    /// Tell the heartbeat that the walk is over.
    pub fn set_done(&self) {
        self.done.store(true, Ordering::Relaxed);
    }

    pub fn is_done(&self) -> bool {
        self.done.load(Ordering::Relaxed)
    }

    /// A snapshot of the counters, with the entry scanned last.
    pub fn to_scan_progress(&self, current_path: Option<String>) -> (p: ScanProgress)
        ensures
            p.current_path == current_path,
    {
        ScanProgress {
            files_scanned: self.files_scanned.load(Ordering::Relaxed),
            dirs_scanned: self.dirs_scanned.load(Ordering::Relaxed),
            bytes_scanned: self.bytes_scanned.load(Ordering::Relaxed),
            errors: self.errors.load(Ordering::Relaxed),
            current_path,
        }
    }
}

/// Filesystem scanner: a configuration and the token by which it is stopped.
pub struct Scanner {
    pub config: ScanConfig,
    pub cancel_token: CancellationToken,
}

impl Scanner {
    pub fn new(config: ScanConfig) -> (s: Scanner)
        ensures
            s.config == config,
    {
        Scanner { config, cancel_token: CancellationToken::new() }
    }

    /// The same scanner, stopped by `token`.
    pub fn with_cancellation(self, token: CancellationToken) -> (s: Scanner)
        ensures
            s.config == self.config,
            s.cancel_token == token,
    {
        Scanner { config: self.config, cancel_token: token }
    }
}

/// One entry as the walker yields it, with what was found out about it.
#[derive(Debug, Clone)]
pub struct ScanEntry {
    /// Full path of the entry.
    pub path: String,
    /// Its final component.
    pub name: String,
    pub is_dir: bool,
    pub is_symlink: bool,
    /// The node of the directory that holds the entry, where that directory is in the tree.
    pub parent: Option<NodeId>,
    /// The device the entry lies on.
    pub device: u64,
    /// Its modification time, where it could be read.
    pub mtime: Option<Timestamp>,
    /// The bytes it takes up on disk.
    pub disk_usage: u64,
}

/// The kind of node an entry becomes: a directory, else a symlink, else a file.
pub open spec fn spec_kind_of(is_dir: bool, is_symlink: bool) -> NodeKind {
    if is_dir {
        NodeKind::Directory
    } else if is_symlink {
        NodeKind::Symlink
    } else {
        NodeKind::File
    }
}

pub fn kind_of(is_dir: bool, is_symlink: bool) -> (k: NodeKind)
    ensures
        k == spec_kind_of(is_dir, is_symlink),
{
    if is_dir {
        NodeKind::Directory
    } else if is_symlink {
        NodeKind::Symlink
    } else {
        NodeKind::File
    }
}

/// The entry goes into the tree: it is not the root itself, it lies on the
/// root's device where the scan stays on one filesystem, and the directory that
/// holds it is a live node. (An entry that the arena has no room for, or that
/// lies deeper than depths can count, is left out too.)
pub open spec fn admitted(
    t: Slots,
    root_path: Seq<char>,
    same_filesystem: bool,
    root_device: u64,
    e: ScanEntry,
) -> bool {
    &&& e.path@ != root_path
    &&& !(same_filesystem && e.device != root_device)
    &&& e.parent is Some
    &&& live(t, index_of(e.parent))
    &&& at(t, index_of(e.parent)).depth < u16::MAX
    &&& t.len() < usize::MAX
}

/// The tree after an admitted entry has been recorded: the node is appended
/// under its parent, a directory gets its modification time, and the node gets
/// the entry's disk usage as its size.
pub open spec fn recorded(t: Slots, e: ScanEntry) -> Slots {
    let kind = spec_kind_of(e.is_dir, e.is_symlink);
    let id = t.len() as int;
    let a = added(t, e.name@, kind, e.path@, e.parent->0);
    let b = if e.is_dir && e.mtime is Some {
        with_mtime(a, id, e.mtime)
    } else {
        a
    };
    with_size(b, id, e.disk_usage)
}

/// Record one walked entry: add its node where it is admitted, and count it.
/// Returns the new node's identifier, under which the caller files a directory
/// so that its children find it; `None` where the entry was passed over.
pub fn record_entry(
    tree: &mut DiskTree,
    progress: &SharedProgress,
    same_filesystem: bool,
    root_device: u64,
    entry: ScanEntry,
) -> (r: Option<NodeId>)
    requires
        old(tree).wf(),
    ensures
        final(tree).wf(),
        final(tree).spec_root_path() == old(tree).spec_root_path(),
        r is Some <==> admitted(
            old(tree)@,
            old(tree).spec_root_path(),
            same_filesystem,
            root_device,
            entry,
        ),
        r is Some ==> r->0 == NodeId(old(tree)@.len() as usize) && final(tree)@ == recorded(
            old(tree)@,
            entry,
        ),
        r is None ==> final(tree)@ == old(tree)@,
{
    if same_text(entry.path.as_str(), tree.root_path()) {
        return None;
    }
    if same_filesystem && entry.device != root_device {
        return None;
    }
    let parent = match entry.parent {
        Some(p) => p,
        None => {
            return None;
        },
    };
    match tree.get(parent) {
        Some(node) => {
            if node.depth == 0xffff {
                return None;
            }
        },
        None => {
            return None;
        },
    }
    if tree.len() == usize::MAX {
        return None;
    }
    let kind = kind_of(entry.is_dir, entry.is_symlink);
    let is_dir = entry.is_dir;
    let mtime = entry.mtime;
    let size = entry.disk_usage;
    let id = tree.add_node(entry.name, kind, entry.path, parent);
    if is_dir {
        if mtime.is_some() {
            tree.set_mtime(id, mtime);
        }
        progress.add_dir();
    } else {
        progress.add_file();
    }
    tree.set_size(id, size);
    progress.add_bytes(size);
    Some(id)
}

/// Finish a completed scan: aggregate the sizes bottom-up, then sort every
/// node's children by size.
pub fn finish_scan(tree: &mut DiskTree)
    requires
        old(tree).wf(),
    ensures
        final(tree).wf(),
        final(tree).spec_root_path() == old(tree).spec_root_path(),
        exists|mid: Slots|
            {
                &&& #[trigger] same_but_totals(old(tree)@, mid)
                &&& forall|i: int| 0 <= i < mid.len() ==> aggregated(mid, i)
                &&& children_sorted(mid, final(tree)@)
            },
{
    tree.aggregate_sizes();
    let ghost mid = tree@;
    tree.sort_by_size();
    assert(same_but_totals(old(tree)@, mid));
}

} // verus!
