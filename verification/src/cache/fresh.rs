//! Where a cache file lives and whether its contents may still be trusted.

use std::collections::hash_map::DefaultHasher;
use std::hash::Hasher;
use vstd::prelude::*;
use vstd::std_specs::hash::DefaultHasherAdditionalSpecFns;
use vstd::string::{StringExecFns, StringSliceAdditionalSpecFns};
use crate::cache::metadata::{CacheMetadata, CachedScanConfig};
use crate::paths::{join, path_join};
use crate::text::{hex_digits, push_hex};
use crate::tree::arena::DiskTree;
use crate::tree::model::{at, live, ranks_before, size_snapshot, Slots};
use crate::tree::node::{NodeId, NodeKind, Timestamp};

verus! {

/// The 64-bit hash of a path: std's default hasher fed the bytes of the path.
pub open spec fn spec_hash_path(path: Seq<char>) -> u64 {
    DefaultHasher::spec_finish(seq![vstd::utf8::encode_utf8(path)])
}

/// Hash a path to a `u64` for the cache file name.
pub fn hash_path(path: &str) -> (h: u64)
    ensures
        h == spec_hash_path(path@),
{
    let mut hasher = DefaultHasher::new();
    hasher.write(path.as_bytes());
    assert(hasher@ =~= seq![vstd::utf8::encode_utf8(path@)]);
    hasher.finish()
}

/// The name of the cache file for a hash: its 16 hexadecimal digits and `.dux`.
pub open spec fn cache_file_name(hash: u64) -> Seq<char> {
    hex_digits(hash as nat, 16) + ".dux"@
}

/// Get the cache file path for a root directory: in `cache_dir`, the file
/// named by the hash of the root path.
pub fn cache_path_for(root: &str, cache_dir: &str) -> (p: String)
    ensures
        p@ == path_join(cache_dir@, cache_file_name(spec_hash_path(root@))),
{
    let hash = hash_path(root);
    let mut name = String::new();
    push_hex(&mut name, hash, 16);
    name.append(".dux");
    assert(name@ =~= cache_file_name(hash));
    join(cache_dir, name.as_str())
}

/// The first three freshness tests: the cache was made with this scan
/// configuration, for this root path, and the root directory has the
/// modification time it had then. `current_root_mtime` is `None` where the root
/// could not be examined, and the cache is then not valid.
pub fn is_cache_valid(
    meta: &CacheMetadata,
    root: &str,
    config: &CachedScanConfig,
    current_root_mtime: Option<Timestamp>,
) -> (valid: bool)
    ensures
        valid == (meta.config == *config && meta.root_path@ == root@ && current_root_mtime
            == Some(meta.root_mtime)),
{
    if !(meta.config.follow_symlinks == config.follow_symlinks && meta.config.same_filesystem
        == config.same_filesystem && same_depth(meta.config.max_depth, config.max_depth)) {
        return false;
    }
    if !crate::paths::same_text(meta.root_path.as_str(), root) {
        return false;
    }
    match current_root_mtime {
        Some(mtime) => mtime.nanos == meta.root_mtime.nanos,
        None => false,
    }
}

fn same_depth(a: Option<usize>, b: Option<usize>) -> (r: bool)
    ensures
        r == (a == b),
{
    match (a, b) {
        (Some(x), Some(y)) => x == y,
        (None, None) => true,
        _ => false,
    }
}

/// A directory whose modification time is to be compared with the one stored.
#[derive(Debug, Clone)]
pub struct SpotCheck {
    pub id: NodeId,
    pub path: String,
    pub mtime: Timestamp,
}

/// Slot `j` holds a directory with a recorded modification time.
pub open spec fn is_candidate(t: Slots, j: int) -> bool {
    live(t, j) && at(t, j).kind == NodeKind::Directory && at(t, j).mtime is Some
}

/// The candidates among the first `n` slots, in slot order.
pub open spec fn candidates(t: Slots, n: int) -> Seq<NodeId>
    decreases n,
{
    if n <= 0 {
        Seq::empty()
    } else if is_candidate(t, n - 1) {
        candidates(t, n - 1).push(NodeId((n - 1) as usize))
    } else {
        candidates(t, n - 1)
    }
}

/// `ids` are the `limit` largest of `cands`, largest first, equal sizes in the
/// order of `cands`; all of `cands` where there are no more than `limit`.
pub open spec fn largest_of(sizes: Seq<u64>, cands: Seq<NodeId>, ids: Seq<NodeId>, limit: nat) -> bool {
    &&& ids.len() == if cands.len() < limit { cands.len() } else { limit }
    &&& forall|k: int| 0 <= k < ids.len() ==> cands.contains(#[trigger] ids[k])
    &&& forall|i: int, j: int|
        0 <= i < j < ids.len() ==> ranks_before(sizes, cands, #[trigger] ids[i], #[trigger] ids[j])
    &&& forall|c: NodeId, k: int|
        cands.contains(c) && !ids.contains(c) && 0 <= k < ids.len() ==> #[trigger] ranks_before(
            sizes,
            cands,
            ids[k],
            c,
        )
}

pub open spec fn target_ids(targets: Seq<SpotCheck>) -> Seq<NodeId> {
    Seq::new(targets.len(), |k: int| targets[k].id)
}

proof fn lemma_candidates(t: Slots, n: int)
    requires
        0 <= n <= t.len() <= usize::MAX,
    ensures
        candidates(t, n).no_duplicates(),
        forall|k: int| 0 <= k < candidates(t, n).len() ==> (#[trigger] candidates(t, n)[k]).0 < n,
        forall|k: int|
            0 <= k < candidates(t, n).len() ==> is_candidate(t, (#[trigger] candidates(t, n)[k]).0 as int),
    decreases n,
{
    if n > 0 {
        lemma_candidates(t, n - 1);
    }
}

/// The directories to examine in the spot check: of all live directories with a
/// recorded modification time, the `limit` largest, largest first.
pub fn spot_check_targets(tree: &DiskTree, limit: usize) -> (targets: Vec<SpotCheck>)
    ensures
        largest_of(
            size_snapshot(tree@),
            candidates(tree@, tree@.len() as int),
            target_ids(targets@),
            limit as nat,
        ),
        forall|k: int|
            0 <= k < targets@.len() ==> {
                &&& is_candidate(tree@, (#[trigger] targets@[k]).id.0 as int)
                &&& targets@[k].path@ == at(tree@, targets@[k].id.0 as int).path
                &&& Some(targets@[k].mtime) == at(tree@, targets@[k].id.0 as int).mtime
            },
{
    let n = tree.len();
    let mut dirs: Vec<NodeId> = Vec::new();
    let mut j: usize = 0;
    while j < n
        invariant
            j <= n,
            n == tree@.len(),
            dirs@ == candidates(tree@, j as int),
        decreases n - j,
    {
        match tree.get(NodeId(j)) {
            Some(node) => {
                if node.kind.is_directory() && node.mtime.is_some() {
                    dirs.push(NodeId(j));
                }
            },
            None => {},
        }
        j = j + 1;
    }
    let ghost cands = dirs@;
    proof {
        lemma_candidates(tree@, n as int);
    }
    let sorted = tree.largest_first(dirs);
    let mut targets: Vec<SpotCheck> = Vec::new();
    let mut k: usize = 0;
    while k < sorted.len() && k < limit
        invariant
            k <= sorted@.len(),
            k <= limit,
            sorted@.len() == cands.len(),
            targets@.len() == k,
            forall|c: NodeId| #[trigger] sorted@.contains(c) <==> cands.contains(c),
            forall|i: int|
                0 <= i < cands.len() ==> is_candidate(tree@, (#[trigger] cands[i]).0 as int),
            forall|i: int|
                0 <= i < k ==> {
                    &&& (#[trigger] targets@[i]).id == sorted@[i]
                    &&& targets@[i].path@ == at(tree@, targets@[i].id.0 as int).path
                    &&& Some(targets@[i].mtime) == at(tree@, targets@[i].id.0 as int).mtime
                },
        decreases sorted@.len() - k,
    {
        let id = sorted[k];
        proof {
            assert(sorted@.contains(id));
            assert(cands.contains(id));
            let i = choose|i: int| 0 <= i < cands.len() && cands[i] == id;
            assert(is_candidate(tree@, cands[i].0 as int));
        }
        match tree.get(id) {
            Some(node) => match node.mtime {
                Some(mtime) => {
                    targets.push(SpotCheck { id, path: node.path.clone(), mtime });
                },
                None => {},
            },
            None => {},
        }
        k = k + 1;
    }
    proof {
        let ids = target_ids(targets@);
        let sizes = size_snapshot(tree@);
        assert forall|i: int| 0 <= i < ids.len() implies ids[i] == sorted@[i] by {
            assert(targets@[i].id == sorted@[i]);
        }
        assert forall|i: int| 0 <= i < ids.len() implies cands.contains(#[trigger] ids[i]) by {
            assert(sorted@.contains(sorted@[i]));
        }
        assert forall|c: NodeId, i: int|
            cands.contains(c) && !ids.contains(c) && 0 <= i < ids.len() implies #[trigger] ranks_before(
            sizes,
            cands,
            ids[i],
            c,
        ) by {
            assert(sorted@.contains(c));
            let m = choose|m: int| 0 <= m < sorted@.len() && sorted@[m] == c;
            if m < ids.len() {
                assert(ids[m] == c);
                assert(ids.contains(c));
            }
            assert(ranks_before(sizes, cands, sorted@[i], sorted@[m]));
        }
        assert forall|i: int| 0 <= i < targets@.len() implies {
            &&& is_candidate(tree@, (#[trigger] targets@[i]).id.0 as int)
            &&& targets@[i].path@ == at(tree@, targets@[i].id.0 as int).path
            &&& Some(targets@[i].mtime) == at(tree@, targets@[i].id.0 as int).mtime
        } by {
            assert(sorted@.contains(sorted@[i]));
            let m = choose|m: int| 0 <= m < cands.len() && cands[m] == sorted@[i];
            assert(is_candidate(tree@, cands[m].0 as int));
        }
    }
    targets
}

/// The spot check proper: every target was examined and has the modification
/// time that was stored for it. `observed[k]` is what was found for target `k`,
/// `None` where the directory is gone or cannot be examined.
pub fn spot_check_mtimes(targets: &Vec<SpotCheck>, observed: &Vec<Option<Timestamp>>) -> (fresh: bool)
    ensures
        fresh == (observed@.len() >= targets@.len() && forall|k: int|
            0 <= k < targets@.len() ==> #[trigger] observed@[k] == Some(targets@[k].mtime)),
{
    if observed.len() < targets.len() {
        return false;
    }
    let mut k: usize = 0;
    while k < targets.len()
        invariant
            k <= targets@.len() <= observed@.len(),
            forall|i: int| 0 <= i < k ==> #[trigger] observed@[i] == Some(targets@[i].mtime),
        decreases targets@.len() - k,
    {
        match observed[k] {
            Some(mtime) => {
                if mtime.nanos != targets[k].mtime.nanos {
                    return false;
                }
            },
            None => {
                return false;
            },
        }
        k = k + 1;
    }
    true
}

} // verus!
