use vstd::prelude::*;
use crate::paths::{path_strip_prefix, strip_prefix};
use crate::tree::arena::DiskTree;
use crate::tree::model::{at, lemma_child_above, live, parent_idx, size_snapshot, stable_desc, wf, Slots};
use crate::tree::node::{NodeId, NodeKind, Timestamp};
use crate::tree::removal::lemma_parent_live;
use crate::views::artifact::{artifact_of, classify_artifact, ArtifactKind};
use crate::views::stale::{is_stale, stale, StaleThreshold};

verus! {

/// One line of the large-files view.
#[derive(Debug, Clone)]
pub struct LargeFileEntry {
    pub node_id: NodeId,
    pub relative_path: String,
    pub size: u64,
}

/// One line of the build-artifacts view.
#[derive(Debug, Clone)]
pub struct BuildArtifactEntry {
    pub node_id: NodeId,
    pub relative_path: String,
    pub size: u64,
    pub kind: ArtifactKind,
    pub is_stale: bool,
    /// Most recent modification time of the directory and everything below it.
    pub newest_mtime: Option<Timestamp>,
}

/// The two derived views with the settings they were computed under.
#[derive(Debug, Clone)]
pub struct ComputedViews {
    pub large_files: Vec<LargeFileEntry>,
    pub build_artifacts: Vec<BuildArtifactEntry>,
    /// Set when the tree has changed since the views were computed.
    pub dirty: bool,
    pub stale_threshold: StaleThreshold,
}

/// `path` as shown in a view: relative to the root where it lies below it.
pub open spec fn relative(path: Seq<char>, root: Seq<char>) -> Seq<char> {
    match path_strip_prefix(path, root) {
        Some(r) => r,
        None => path,
    }
}

pub open spec fn is_file(t: Slots, j: int) -> bool {
    live(t, j) && at(t, j).kind == NodeKind::File
}

/// The live files among the first `n` slots, in slot order.
pub open spec fn files(t: Slots, n: int) -> Seq<NodeId>
    decreases n,
{
    if n <= 0 {
        Seq::empty()
    } else if is_file(t, n - 1) {
        files(t, n - 1).push(NodeId((n - 1) as usize))
    } else {
        files(t, n - 1)
    }
}

/// Some ancestor of node `j` has the name of a build-output directory.
pub open spec fn under_artifact(t: Slots, j: int) -> bool
    decreases j,
{
    if live(t, j) && 0 <= parent_idx(t, j) < j {
        (live(t, parent_idx(t, j)) && artifact_of(at(t, parent_idx(t, j)).name) is Some)
            || under_artifact(t, parent_idx(t, j))
    } else {
        false
    }
}

/// Node `j` is shown in the build-artifacts view: a live directory with the name
/// of build output, none of whose ancestors has such a name.
pub open spec fn is_artifact_root(t: Slots, j: int) -> bool {
    live(t, j) && at(t, j).kind == NodeKind::Directory && artifact_of(at(t, j).name) is Some
        && !under_artifact(t, j)
}

/// The artifact roots among the first `n` slots, in slot order.
pub open spec fn artifact_roots(t: Slots, n: int) -> Seq<NodeId>
    decreases n,
{
    if n <= 0 {
        Seq::empty()
    } else if is_artifact_root(t, n - 1) {
        artifact_roots(t, n - 1).push(NodeId((n - 1) as usize))
    } else {
        artifact_roots(t, n - 1)
    }
}

/// The later of two optional times; an absent one never wins.
pub open spec fn later(a: Option<Timestamp>, b: Option<Timestamp>) -> Option<Timestamp> {
    match (a, b) {
        (Some(x), Some(y)) => if x.nanos >= y.nanos {
            a
        } else {
            b
        },
        (Some(_), None) => a,
        _ => b,
    }
}

/// The most recent modification time recorded at `id` or anywhere below it.
pub open spec fn newest(t: Slots, id: NodeId) -> Option<Timestamp>
    decreases t.len() - id.0, 1int, 0int,
{
    if live(t, id.0 as int) {
        later(at(t, id.0 as int).mtime, newest_list(t, id.0 as int, at(t, id.0 as int).children))
    } else {
        None
    }
}

/// The most recent modification time recorded at or below any of the children `cs` of `parent`.
pub open spec fn newest_list(t: Slots, parent: int, cs: Seq<NodeId>) -> Option<Timestamp>
    decreases t.len() - parent, 0int, cs.len(),
{
    if cs.len() == 0 {
        None
    } else if parent < cs.last().0 < t.len() {
        later(newest_list(t, parent, cs.drop_last()), newest(t, cs.last()))
    } else {
        newest_list(t, parent, cs.drop_last())
    }
}

pub open spec fn large_file_ids(entries: Seq<LargeFileEntry>) -> Seq<NodeId> {
    Seq::new(entries.len(), |k: int| entries[k].node_id)
}

pub open spec fn artifact_ids(entries: Seq<BuildArtifactEntry>) -> Seq<NodeId> {
    Seq::new(entries.len(), |k: int| entries[k].node_id)
}

/// `entries` is the large-files view of the tree: one entry per live file,
/// largest first, files of equal size in slot order.
pub open spec fn large_files_view(t: Slots, root: Seq<char>, entries: Seq<LargeFileEntry>) -> bool {
    &&& stable_desc(size_snapshot(t), files(t, t.len() as int), large_file_ids(entries))
    &&& forall|k: int|
        0 <= k < entries.len() ==> {
            &&& is_file(t, (#[trigger] entries[k]).node_id.0 as int)
            &&& entries[k].relative_path@ == relative(at(t, entries[k].node_id.0 as int).path, root)
            &&& entries[k].size == at(t, entries[k].node_id.0 as int).size
        }
}

/// `entries` is the build-artifacts view of the tree at `now`: one entry per
/// artifact root, largest first, roots of equal size in slot order.
pub open spec fn artifacts_view(
    t: Slots,
    root: Seq<char>,
    threshold: StaleThreshold,
    now: Timestamp,
    entries: Seq<BuildArtifactEntry>,
) -> bool {
    &&& stable_desc(size_snapshot(t), artifact_roots(t, t.len() as int), artifact_ids(entries))
    &&& forall|k: int|
        0 <= k < entries.len() ==> {
            &&& is_artifact_root(t, (#[trigger] entries[k]).node_id.0 as int)
            &&& entries[k].relative_path@ == relative(at(t, entries[k].node_id.0 as int).path, root)
            &&& entries[k].size == at(t, entries[k].node_id.0 as int).size
            &&& Some(entries[k].kind) == artifact_of(at(t, entries[k].node_id.0 as int).name)
            &&& entries[k].newest_mtime == newest(t, entries[k].node_id)
            &&& entries[k].is_stale == stale(threshold, entries[k].newest_mtime, now)
        }
}

proof fn lemma_files(t: Slots, n: int)
    requires
        0 <= n <= t.len() <= usize::MAX,
    ensures
        files(t, n).no_duplicates(),
        forall|k: int| 0 <= k < files(t, n).len() ==> (#[trigger] files(t, n)[k]).0 < n,
        forall|k: int| 0 <= k < files(t, n).len() ==> is_file(t, (#[trigger] files(t, n)[k]).0 as int),
    decreases n,
{
    if n > 0 {
        lemma_files(t, n - 1);
    }
}

proof fn lemma_artifact_roots(t: Slots, n: int)
    requires
        0 <= n <= t.len() <= usize::MAX,
    ensures
        artifact_roots(t, n).no_duplicates(),
        forall|k: int|
            0 <= k < artifact_roots(t, n).len() ==> (#[trigger] artifact_roots(t, n)[k]).0 < n,
        forall|k: int|
            0 <= k < artifact_roots(t, n).len() ==> is_artifact_root(
                t,
                (#[trigger] artifact_roots(t, n)[k]).0 as int,
            ),
    decreases n,
{
    if n > 0 {
        lemma_artifact_roots(t, n - 1);
    }
}

/// The path of a node as a view shows it.
fn relative_path(path: &str, root: &str) -> (r: String)
    ensures
        r@ == relative(path@, root@),
{
    match strip_prefix(path, root) {
        Some(rest) => rest,
        None => {
            let mut s = String::new();
            vstd::string::StringExecFns::append(&mut s, path);
            assert(s@ =~= path@);
            s
        },
    }
}

/// Whether some ancestor of `id` has the name of a build-output directory.
fn has_artifact_ancestor(tree: &DiskTree, id: NodeId) -> (b: bool)
    requires
        tree.wf(),
        live(tree@, id.0 as int),
    ensures
        b == under_artifact(tree@, id.0 as int),
{
    let mut current = id;
    loop
        invariant
            tree.wf(),
            live(tree@, current.0 as int),
            under_artifact(tree@, id.0 as int) == under_artifact(tree@, current.0 as int),
        decreases current.0,
    {
        let parent = match tree.get(current) {
            Some(node) => node.parent,
            None => None,
        };
        proof {
            if current.0 != 0 {
                lemma_parent_live(tree@, current.0 as int);
            } else {
                assert(at(tree@, 0).parent is None);
            }
        }
        match parent {
            Some(pid) => {
                match tree.get(pid) {
                    Some(p) => {
                        if classify_artifact(p.name.as_str()).is_some() {
                            return true;
                        }
                    },
                    None => {},
                }
                current = pid;
            },
            None => {
                return false;
            },
        }
    }
}

fn later_of(a: Option<Timestamp>, b: Option<Timestamp>) -> (r: Option<Timestamp>)
    ensures
        r == later(a, b),
{
    match (a, b) {
        (Some(x), Some(y)) => if x.nanos >= y.nanos {
            a
        } else {
            b
        },
        (Some(_), None) => a,
        _ => b,
    }
}

/// The most recent modification time recorded at `id` or anywhere below it.
pub fn newest_descendant_mtime(tree: &DiskTree, id: NodeId) -> (r: Option<Timestamp>)
    requires
        tree.wf(),
    ensures
        r == newest(tree@, id),
    decreases tree@.len() - id.0,
{
    match tree.get(id) {
        Some(node) => {
            let mut best: Option<Timestamp> = None;
            let mut k: usize = 0;
            assert(node.children@.subrange(0, 0) =~= Seq::<NodeId>::empty());
            while k < node.children.len()
                invariant
                    k <= node.children@.len(),
                    tree.wf(),
                    live(tree@, id.0 as int),
                    node@ == at(tree@, id.0 as int),
                    best == newest_list(tree@, id.0 as int, node.children@.subrange(0, k as int)),
                decreases node.children@.len() - k,
            {
                let c = node.children[k];
                proof {
                    let pre = node.children@.subrange(0, k as int);
                    let next = node.children@.subrange(0, k as int + 1);
                    assert(next.drop_last() =~= pre);
                    assert(next.last() == c);
                    lemma_child_above(tree@, id.0 as int, k as int);
                }
                let below = newest_descendant_mtime(tree, c);
                best = later_of(best, below);
                k = k + 1;
            }
            assert(node.children@.subrange(0, k as int) =~= node.children@);
            later_of(node.mtime, best)
        },
        None => None,
    }
}

impl ComputedViews {
    /// No views yet: both lists empty, marked dirty, threshold seven days.
    pub fn new() -> (v: ComputedViews)
        ensures
            v.large_files@.len() == 0,
            v.build_artifacts@.len() == 0,
            v.dirty,
            v.stale_threshold == StaleThreshold::SevenDays,
    {
        ComputedViews {
            large_files: Vec::new(),
            build_artifacts: Vec::new(),
            dirty: true,
            stale_threshold: StaleThreshold::SevenDays,
        }
    }

    /// Compute both views from the tree and clear the dirty flag.
    pub fn rebuild(&mut self, tree: &DiskTree, now: Timestamp)
        requires
            tree.wf(),
        ensures
            large_files_view(tree@, tree.spec_root_path(), final(self).large_files@),
            artifacts_view(
                tree@,
                tree.spec_root_path(),
                final(self).stale_threshold,
                now,
                final(self).build_artifacts@,
            ),
            !final(self).dirty,
            final(self).stale_threshold == old(self).stale_threshold,
    {
        self.large_files = rebuild_large_files(tree);
        self.build_artifacts = rebuild_build_artifacts(tree, self.stale_threshold, now);
        self.dirty = false;
    }

    /// Move to the next threshold and bring the stale flags up to date. Only the
    /// flags change: the tree is not consulted.
    pub fn cycle_stale_threshold(&mut self, now: Timestamp)
        ensures
            final(self).stale_threshold == old(self).stale_threshold.spec_next(),
            final(self).large_files == old(self).large_files,
            final(self).dirty == old(self).dirty,
            final(self).build_artifacts@.len() == old(self).build_artifacts@.len(),
            forall|k: int|
                0 <= k < final(self).build_artifacts@.len() ==> #[trigger] final(self).build_artifacts@[k]
                    == (BuildArtifactEntry {
                    is_stale: stale(
                        final(self).stale_threshold,
                        old(self).build_artifacts@[k].newest_mtime,
                        now,
                    ),
                    ..old(self).build_artifacts@[k]
                }),
    {
        self.stale_threshold = self.stale_threshold.next();
        let threshold = self.stale_threshold;
        let n = self.build_artifacts.len();
        let mut i: usize = 0;
        while i < n
            invariant
                i <= n,
                n == self.build_artifacts@.len(),
                n == old(self).build_artifacts@.len(),
                threshold == self.stale_threshold,
                self.stale_threshold == old(self).stale_threshold.spec_next(),
                self.large_files == old(self).large_files,
                self.dirty == old(self).dirty,
                forall|k: int|
                    0 <= k < i ==> #[trigger] self.build_artifacts@[k] == (BuildArtifactEntry {
                        is_stale: stale(threshold, old(self).build_artifacts@[k].newest_mtime, now),
                        ..old(self).build_artifacts@[k]
                    }),
                forall|k: int|
                    i <= k < n ==> #[trigger] self.build_artifacts@[k] == old(self).build_artifacts@[k],
            decreases n - i,
        {
            let flag = is_stale(threshold, self.build_artifacts[i].newest_mtime, now);
            self.build_artifacts[i].is_stale = flag;
            i = i + 1;
        }
    }
}

/// The large-files view of a tree.
pub fn rebuild_large_files(tree: &DiskTree) -> (entries: Vec<LargeFileEntry>)
    requires
        tree.wf(),
    ensures
        large_files_view(tree@, tree.spec_root_path(), entries@),
{
    let n = tree.len();
    let mut ids: Vec<NodeId> = Vec::new();
    let mut j: usize = 0;
    while j < n
        invariant
            j <= n,
            n == tree@.len(),
            ids@ == files(tree@, j as int),
        decreases n - j,
    {
        match tree.get(NodeId(j)) {
            Some(node) => {
                if node.kind == NodeKind::File {
                    ids.push(NodeId(j));
                }
            },
            None => {},
        }
        j = j + 1;
    }
    let ghost all = ids@;
    proof {
        lemma_files(tree@, n as int);
    }
    let sorted = tree.largest_first(ids);
    let mut entries: Vec<LargeFileEntry> = Vec::new();
    let mut k: usize = 0;
    while k < sorted.len()
        invariant
            k <= sorted@.len(),
            entries@.len() == k,
            all == files(tree@, tree@.len() as int),
            forall|c: NodeId| #[trigger] sorted@.contains(c) <==> all.contains(c),
            forall|i: int| 0 <= i < all.len() ==> is_file(tree@, (#[trigger] all[i]).0 as int),
            forall|i: int|
                0 <= i < k ==> {
                    &&& (#[trigger] entries@[i]).node_id == sorted@[i]
                    &&& is_file(tree@, entries@[i].node_id.0 as int)
                    &&& entries@[i].relative_path@ == relative(
                        at(tree@, entries@[i].node_id.0 as int).path,
                        tree.spec_root_path(),
                    )
                    &&& entries@[i].size == at(tree@, entries@[i].node_id.0 as int).size
                },
        decreases sorted@.len() - k,
    {
        let id = sorted[k];
        proof {
            assert(sorted@.contains(id));
            let i = choose|i: int| 0 <= i < all.len() && all[i] == id;
            assert(is_file(tree@, all[i].0 as int));
        }
        match tree.get(id) {
            Some(node) => {
                let relative_path = relative_path(node.path.as_str(), tree.root_path());
                entries.push(LargeFileEntry { node_id: id, relative_path, size: node.size });
            },
            None => {},
        }
        k = k + 1;
    }
    assert(large_file_ids(entries@) =~= sorted@);
    entries
}

/// The build-artifacts view of a tree at `now`.
pub fn rebuild_build_artifacts(tree: &DiskTree, threshold: StaleThreshold, now: Timestamp) -> (entries:
    Vec<BuildArtifactEntry>)
    requires
        tree.wf(),
    ensures
        artifacts_view(tree@, tree.spec_root_path(), threshold, now, entries@),
{
    let n = tree.len();
    let mut ids: Vec<NodeId> = Vec::new();
    let mut j: usize = 0;
    while j < n
        invariant
            j <= n,
            n == tree@.len(),
            tree.wf(),
            ids@ == artifact_roots(tree@, j as int),
        decreases n - j,
    {
        match tree.get(NodeId(j)) {
            Some(node) => {
                if node.kind.is_directory() && classify_artifact(node.name.as_str()).is_some() {
                    if !has_artifact_ancestor(tree, NodeId(j)) {
                        ids.push(NodeId(j));
                    }
                }
            },
            None => {},
        }
        j = j + 1;
    }
    let ghost all = ids@;
    proof {
        lemma_artifact_roots(tree@, n as int);
    }
    let sorted = tree.largest_first(ids);
    let mut entries: Vec<BuildArtifactEntry> = Vec::new();
    let mut k: usize = 0;
    while k < sorted.len()
        invariant
            k <= sorted@.len(),
            entries@.len() == k,
            tree.wf(),
            all == artifact_roots(tree@, tree@.len() as int),
            forall|c: NodeId| #[trigger] sorted@.contains(c) <==> all.contains(c),
            forall|i: int|
                0 <= i < all.len() ==> is_artifact_root(tree@, (#[trigger] all[i]).0 as int),
            forall|i: int|
                0 <= i < k ==> {
                    &&& (#[trigger] entries@[i]).node_id == sorted@[i]
                    &&& is_artifact_root(tree@, entries@[i].node_id.0 as int)
                    &&& entries@[i].relative_path@ == relative(
                        at(tree@, entries@[i].node_id.0 as int).path,
                        tree.spec_root_path(),
                    )
                    &&& entries@[i].size == at(tree@, entries@[i].node_id.0 as int).size
                    &&& Some(entries@[i].kind) == artifact_of(
                        at(tree@, entries@[i].node_id.0 as int).name,
                    )
                    &&& entries@[i].newest_mtime == newest(tree@, entries@[i].node_id)
                    &&& entries@[i].is_stale == stale(threshold, entries@[i].newest_mtime, now)
                },
        decreases sorted@.len() - k,
    {
        let id = sorted[k];
        proof {
            assert(sorted@.contains(id));
            let i = choose|i: int| 0 <= i < all.len() && all[i] == id;
            assert(is_artifact_root(tree@, all[i].0 as int));
        }
        match tree.get(id) {
            Some(node) => match classify_artifact(node.name.as_str()) {
                Some(kind) => {
                    let relative_path = relative_path(node.path.as_str(), tree.root_path());
                    let newest_mtime = newest_descendant_mtime(tree, id);
                    let is_stale = is_stale(threshold, newest_mtime, now);
                    entries.push(
                        BuildArtifactEntry {
                            node_id: id,
                            relative_path,
                            size: node.size,
                            kind,
                            is_stale,
                            newest_mtime,
                        },
                    );
                },
                None => {},
            },
            None => {},
        }
        k = k + 1;
    }
    assert(artifact_ids(entries@) =~= sorted@);
    entries
}

} // verus!
