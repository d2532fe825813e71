use vstd::prelude::*;
use vstd::string::StringExecFns;
use crate::paths::{file_name, join, path_join, root_name, same_text};
use crate::tree::model::{
    added, aggregated, at, children_ok, children_sorted, clamp64, count_live, lemma_added_wf,
    lemma_aggregate_step, lemma_child_above, lemma_children_sorted_wf, lemma_wf_same_links,
    listed, live, live_nodes, live_views, parent_idx, parent_ok, ranks_before,
    same_but_totals, size_snapshot, slot_view, slots_of, snap_key, stable_desc, sum_files,
    sum_sizes, upward_ok, wf, with_expanded, with_mtime, with_size, Slots,
};
use crate::tree::node::{NodeId, NodeKind, NodeView, Timestamp, TreeNode};
use crate::tree::walks::{
    expanded_all, lemma_repath_step, live_names, path_ok, path_to, paths_rebuilt, same_but_paths,
    slash_joined, visible, visible_list,
};
use crate::tree::removal::{
    chain_shrunk, chain_shrunk_below, descendants, descendants_of, in_subtree, is_ancestor,
    lemma_ancestor_below, lemma_descendants_are_subtree, lemma_parent_live, lemma_pruned_wf,
    lemma_shrink_step, pruned, removed, shrunk, tombstoned, without,
};

verus! {

/// Arena-allocated directory tree. Slots are never reused: removing a node
/// leaves a tombstone, so identifiers held elsewhere stay meaningful.
#[derive(Debug, Clone)]
pub struct DiskTree {
    nodes: Vec<Option<TreeNode>>,
    root_path: String,
}

impl View for DiskTree {
    type V = Slots;

    closed spec fn view(&self) -> Slots {
        Seq::new(self.nodes@.len(), |i: int| slot_view(self.nodes@[i]))
    }
}

impl DiskTree {
    /// The path the tree was created for.
    pub closed spec fn spec_root_path(&self) -> Seq<char> {
        self.root_path@
    }

    /// The structural invariant that every operation keeps.
    pub open spec fn wf(&self) -> bool {
        wf(self@)
    }

    /// Get a reference to a node; `None` for a tombstone or an unknown identifier.
    pub fn get(&self, id: NodeId) -> (r: Option<&TreeNode>)
        ensures
            r is Some <==> live(self@, id.0 as int),
            r is Some ==> r->0@ == at(self@, id.0 as int),
    {
        if id.0 < self.nodes.len() {
            self.nodes[id.0].as_ref()
        } else {
            None
        }
    }

    /// Get the root node.
    pub fn root(&self) -> (r: &TreeNode)
        requires
            live(self@, 0),
        ensures
            r@ == at(self@, 0),
    {
        self.nodes[0].as_ref().unwrap()
    }

    /// Get the root path.
    pub fn root_path(&self) -> (p: &str)
        ensures
            p@ == self.spec_root_path(),
    {
        self.root_path.as_str()
    }

    /// Total number of slots, tombstones included.
    pub fn len(&self) -> (n: usize)
        ensures
            n == self@.len(),
    {
        self.nodes.len()
    }

    /// Number of live nodes.
    pub fn live_count(&self) -> (n: usize)
        ensures
            n == count_live(self@, self@.len() as int),
    {
        let mut n: usize = 0;
        let mut i: usize = 0;
        while i < self.nodes.len()
            invariant
                i <= self.nodes@.len(),
                n == count_live(self@, i as int),
                n <= i,
            decreases self.nodes@.len() - i,
        {
            if self.nodes[i].is_some() {
                n = n + 1;
            }
            i = i + 1;
        }
        n
    }

    /// Whether the tree holds nothing but its root.
    pub fn is_empty(&self) -> (b: bool)
        ensures
            b == (count_live(self@, self@.len() as int) <= 1),
    {
        self.live_count() <= 1
    }

    /// Total size of the tree.
    pub fn total_size(&self) -> (s: u64)
        requires
            live(self@, 0),
        ensures
            s == at(self@, 0).size,
    {
        self.root().size
    }

    /// Total file count of the tree.
    pub fn total_files(&self) -> (n: u64)
        requires
            live(self@, 0),
        ensures
            n == at(self@, 0).file_count,
    {
        self.root().file_count
    }
}

impl DiskTree {
    /// A tree that holds only its root: an expanded directory named after the final
    /// component of `root_path`, or after the whole path where it has none.
    pub fn new(root_path: String) -> (tree: DiskTree)
        ensures
            tree@ == seq![
                Some(
                    NodeView::fresh(
                        NodeId(0),
                        root_name(root_path@),
                        NodeKind::Directory,
                        root_path@,
                        None,
                        0,
                    ),
                ),
            ],
            tree.spec_root_path() == root_path@,
            tree.wf(),
    {
        let name = match file_name(root_path.as_str()) {
            Some(n) => n,
            None => root_path.clone(),
        };
        let root_node = TreeNode::new(
            NodeId(0),
            name,
            NodeKind::Directory,
            root_path.clone(),
            None,
            0,
        );
        let mut nodes: Vec<Option<TreeNode>> = Vec::new();
        nodes.push(Some(root_node));
        let tree = DiskTree { nodes, root_path };
        proof {
            let t = tree@;
            assert(t.len() == 1);
            assert(t[0] == slot_view(tree.nodes@[0]));
            assert(t =~= seq![
                Some(
                    NodeView::fresh(
                        NodeId(0),
                        root_name(tree.root_path@),
                        NodeKind::Directory,
                        tree.root_path@,
                        None,
                        0,
                    ),
                ),
            ]);
            assert(forall|i: int| live(t, i) ==> i == 0);
            assert(children_ok(t, 0));
        }
        tree
    }

    /// Append a node under `parent` and return its identifier, the next free index.
    /// Where `parent` is absent the node is still appended, one level below depth 0,
    /// but no node lists it as a child, and the tree is then no longer well formed.
    pub fn add_node(&mut self, name: String, kind: NodeKind, path: String, parent: NodeId) -> (id:
        NodeId)
        requires
            old(self)@.len() < usize::MAX,
            live(old(self)@, parent.0 as int) ==> at(old(self)@, parent.0 as int).depth < u16::MAX,
        ensures
            id == NodeId(old(self)@.len() as usize),
            final(self)@ == added(old(self)@, name@, kind, path@, parent),
            final(self).spec_root_path() == old(self).spec_root_path(),
            old(self).wf() && live(old(self)@, parent.0 as int) ==> final(self).wf(),
    {
        let parent_depth: u16 = match self.get(parent) {
            Some(n) => n.depth,
            None => 0,
        };
        let id = NodeId(self.nodes.len());
        let node = TreeNode::new(id, name, kind, path, Some(parent), parent_depth + 1);
        if parent.0 < self.nodes.len() {
            match &mut self.nodes[parent.0] {
                Some(p) => {
                    p.children.push(id);
                },
                None => {},
            }
        }
        self.nodes.push(Some(node));
        proof {
            assert(final(self)@ =~= added(old(self)@, name@, kind, path@, parent));
            if old(self).wf() && live(old(self)@, parent.0 as int) {
                lemma_added_wf(old(self)@, name@, kind, path@, parent);
            }
        }
        id
    }

    /// Set the size of a node; nothing happens where the node is absent.
    pub fn set_size(&mut self, id: NodeId, size: u64)
        ensures
            final(self)@ == with_size(old(self)@, id.0 as int, size),
            final(self).spec_root_path() == old(self).spec_root_path(),
            old(self).wf() ==> final(self).wf(),
    {
        if id.0 < self.nodes.len() {
            match &mut self.nodes[id.0] {
                Some(n) => {
                    n.size = size;
                },
                None => {},
            }
        }
        proof {
            assert(final(self)@ =~= with_size(old(self)@, id.0 as int, size));
            if old(self).wf() {
                lemma_wf_same_links(old(self)@, final(self)@);
            }
        }
    }

    /// Record the modification time of a node; nothing happens where the node is absent.
    pub fn set_mtime(&mut self, id: NodeId, mtime: Option<Timestamp>)
        ensures
            final(self)@ == with_mtime(old(self)@, id.0 as int, mtime),
            final(self).spec_root_path() == old(self).spec_root_path(),
            old(self).wf() ==> final(self).wf(),
    {
        if id.0 < self.nodes.len() {
            match &mut self.nodes[id.0] {
                Some(n) => {
                    n.mtime = mtime;
                },
                None => {},
            }
        }
        proof {
            assert(final(self)@ =~= with_mtime(old(self)@, id.0 as int, mtime));
            if old(self).wf() {
                lemma_wf_same_links(old(self)@, final(self)@);
            }
        }
    }

    /// Set the expansion flag of a directory; nothing happens for any other node.
    pub fn set_expanded(&mut self, id: NodeId, expanded: bool)
        ensures
            final(self)@ == with_expanded(old(self)@, id.0 as int, expanded),
            final(self).spec_root_path() == old(self).spec_root_path(),
            old(self).wf() ==> final(self).wf(),
    {
        if id.0 < self.nodes.len() {
            match &mut self.nodes[id.0] {
                Some(n) => {
                    if n.kind.is_directory() {
                        n.is_expanded = expanded;
                    }
                },
                None => {},
            }
        }
        proof {
            assert(final(self)@ =~= with_expanded(old(self)@, id.0 as int, expanded));
            if old(self).wf() {
                lemma_wf_same_links(old(self)@, final(self)@);
            }
        }
    }

    /// Flip the expansion flag of a directory; nothing happens for any other node.
    pub fn toggle_expanded(&mut self, id: NodeId)
        ensures
            final(self)@ == with_expanded(
                old(self)@,
                id.0 as int,
                !at(old(self)@, id.0 as int).is_expanded,
            ),
            final(self).spec_root_path() == old(self).spec_root_path(),
            old(self).wf() ==> final(self).wf(),
    {
        if id.0 < self.nodes.len() {
            match &mut self.nodes[id.0] {
                Some(n) => {
                    if n.kind.is_directory() {
                        n.is_expanded = !n.is_expanded;
                    }
                },
                None => {},
            }
        }
        proof {
            assert(final(self)@ =~= with_expanded(
                old(self)@,
                id.0 as int,
                !at(old(self)@, id.0 as int).is_expanded,
            ));
            if old(self).wf() {
                lemma_wf_same_links(old(self)@, final(self)@);
            }
        }
    }
}

impl DiskTree {
    /// The totals over the live children of node `i`, each held at the largest `u64`
    /// where the sum does not fit.
    fn children_totals(&self, i: usize) -> (r: (u64, u64))
        requires
            live(self@, i as int),
        ensures
            r.0 == clamp64(sum_sizes(self@, at(self@, i as int).children)),
            r.1 == clamp64(sum_files(self@, at(self@, i as int).children)),
    {
        let mut total_size: u64 = 0;
        let mut total_files: u64 = 0;
        match &self.nodes[i] {
            Some(node) => {
                let mut k: usize = 0;
                while k < node.children.len()
                    invariant
                        k <= node.children@.len(),
                        total_size == clamp64(sum_sizes(self@, node.children@.subrange(0, k as int))),
                        total_files == clamp64(
                            sum_files(self@, node.children@.subrange(0, k as int)),
                        ),
                    decreases node.children@.len() - k,
                {
                    let c = node.children[k];
                    let ghost pre = node.children@.subrange(0, k as int);
                    let ghost next = node.children@.subrange(0, k as int + 1);
                    assert(next.drop_last() =~= pre);
                    assert(next.last() == c);
                    match self.get(c) {
                        Some(child) => {
                            total_size = if total_size > u64::MAX - child.size {
                                u64::MAX
                            } else {
                                total_size + child.size
                            };
                            total_files = if total_files > u64::MAX - child.file_count {
                                u64::MAX
                            } else {
                                total_files + child.file_count
                            };
                        },
                        None => {},
                    }
                    k = k + 1;
                }
                assert(node.children@.subrange(0, k as int) =~= node.children@);
            },
            None => {},
        }
        (total_size, total_files)
    }

    /// Whether slot `i` holds a directory.
    fn is_live_directory(&self, i: usize) -> (b: bool)
        requires
            i < self@.len(),
        ensures
            b == (live(self@, i as int) && at(self@, i as int).kind == NodeKind::Directory),
    {
        match &self.nodes[i] {
            Some(node) => node.kind.is_directory(),
            None => false,
        }
    }

    /// Store the totals of a node.
    fn set_totals(&mut self, i: usize, size: u64, file_count: u64)
        requires
            live(old(self)@, i as int),
        ensures
            final(self)@ == old(self)@.update(
                i as int,
                Some(NodeView { size, file_count, ..at(old(self)@, i as int) }),
            ),
            final(self).spec_root_path() == old(self).spec_root_path(),
    {
        match &mut self.nodes[i] {
            Some(node) => {
                node.size = size;
                node.file_count = file_count;
            },
            None => {},
        }
        assert(final(self)@ =~= old(self)@.update(
            i as int,
            Some(NodeView { size, file_count, ..at(old(self)@, i as int) }),
        ));
    }

    /// Propagate sizes and file counts from children to parents, bottom-up, in one
    /// pass from the last slot to the first. Afterwards every live directory carries
    /// the sum over its live children (the largest `u64` where a sum does not fit);
    /// nothing else changes.
    pub fn aggregate_sizes(&mut self)
        requires
            old(self).wf(),
        ensures
            final(self).wf(),
            final(self).spec_root_path() == old(self).spec_root_path(),
            same_but_totals(old(self)@, final(self)@),
            forall|i: int| 0 <= i < final(self)@.len() ==> aggregated(final(self)@, i),
    {
        let n = self.len();
        let mut i: usize = n;
        while i > 0
            invariant
                i <= n,
                n == self@.len(),
                self.spec_root_path() == old(self).spec_root_path(),
                wf(self@),
                same_but_totals(old(self)@, self@),
                forall|j: int| i <= j < n ==> aggregated(self@, j),
            decreases i,
        {
            i = i - 1;
            let ghost before = self@;
            if self.is_live_directory(i) {
                let (total_size, total_files) = self.children_totals(i);
                self.set_totals(i, total_size, total_files);
                proof {
                    lemma_aggregate_step(
                        old(self)@,
                        before,
                        self@,
                        i as int,
                        total_size,
                        total_files,
                    );
                }
            }
        }
    }
}

/// The key by which the standard sort, which sorts ascending, puts the largest first.
fn desc_key(sizes: &Vec<u64>, c: NodeId) -> (k: u64)
    ensures
        k == u64::MAX - snap_key(sizes@, c),
{
    if c.0 < sizes.len() {
        u64::MAX - sizes[c.0]
    } else {
        u64::MAX
    }
}

/// Calls `sort_by_key` of std's slices, which is documented as a stable sort: the
/// result holds the same items in ascending order of the key, and items with equal
/// keys keep their order. With the key `desc_key` that is descending order of size.
#[verifier::external_body]
fn sort_children_desc(children: &mut Vec<NodeId>, sizes: &Vec<u64>)
    requires
        old(children)@.no_duplicates(),
    ensures
        stable_desc(sizes@, old(children)@, final(children)@),
{
    children.sort_by_key(|c| desc_key(sizes, *c));
}

impl DiskTree {
    /// The size of every slot, in slot order; a tombstone counts 0.
    fn size_vec(&self) -> (sizes: Vec<u64>)
        ensures
            sizes@ == size_snapshot(self@),
    {
        let n = self.nodes.len();
        let mut sizes: Vec<u64> = Vec::new();
        let mut j: usize = 0;
        while j < n
            invariant
                j <= n,
                n == self.nodes@.len(),
                sizes@ == size_snapshot(self@).subrange(0, j as int),
            decreases n - j,
        {
            let s: u64 = match &self.nodes[j] {
                Some(node) => node.size,
                None => 0,
            };
            sizes.push(s);
            assert(sizes@ =~= size_snapshot(self@).subrange(0, j as int + 1));
            j = j + 1;
        }
        assert(sizes@ =~= size_snapshot(self@));
        sizes
    }

    /// `ids` sorted by the size of the nodes they name, largest first; identifiers
    /// of equal size keep their order.
    pub fn largest_first(&self, ids: Vec<NodeId>) -> (r: Vec<NodeId>)
        requires
            ids@.no_duplicates(),
        ensures
            stable_desc(size_snapshot(self@), ids@, r@),
    {
        let sizes = self.size_vec();
        let mut sorted = ids;
        sort_children_desc(&mut sorted, &sizes);
        sorted
    }

    /// Sort every node's children by size, largest first; children of equal size
    /// keep their order. The sizes are those the slots hold when the call begins.
    pub fn sort_by_size(&mut self)
        requires
            old(self).wf(),
        ensures
            final(self).wf(),
            final(self).spec_root_path() == old(self).spec_root_path(),
            children_sorted(old(self)@, final(self)@),
            forall|i: int, k: int, l: int|
                live(final(self)@, i) && 0 <= k < l < at(final(self)@, i).children.len() ==> at(
                    final(self)@,
                    (#[trigger] at(final(self)@, i).children[k]).0 as int,
                ).size >= at(final(self)@, (#[trigger] at(final(self)@, i).children[l]).0 as int).size,
    {
        let n = self.nodes.len();
        let sizes = self.size_vec();
        let mut i: usize = 0;
        while i < n
            invariant
                i <= n,
                n == self.nodes@.len(),
                n == old(self)@.len(),
                self.root_path == old(self).root_path,
                wf(old(self)@),
                sizes@ == size_snapshot(old(self)@),
                forall|j: int| 0 <= j < n ==> (#[trigger] self@[j] is Some <==> old(self)@[j] is Some),
                forall|j: int| i <= j < n ==> #[trigger] self@[j] == old(self)@[j],
                forall|j: int|
                    0 <= j < i && #[trigger] live(old(self)@, j) ==> {
                        &&& at(self@, j) == NodeView {
                            children: at(self@, j).children,
                            ..at(old(self)@, j)
                        }
                        &&& stable_desc(sizes@, at(old(self)@, j).children, at(self@, j).children)
                    },
            decreases n - i,
        {
            let ghost before = self@;
            match &mut self.nodes[i] {
                Some(node) => {
                    assert(live(old(self)@, i as int));
                    assert(children_ok(old(self)@, i as int));
                    assert(before[i as int] == old(self)@[i as int]);
                    sort_children_desc(&mut node.children, &sizes);
                },
                None => {},
            }
            proof {
                let after = self@;
                assert forall|j: int| 0 <= j < n implies (#[trigger] after[j] is Some
                    <==> old(self)@[j] is Some) by {
                    assert(before[j] is Some <==> old(self)@[j] is Some);
                }
                assert forall|j: int| i + 1 <= j < n implies #[trigger] after[j] == old(self)@[j] by {
                    assert(before[j] == old(self)@[j]);
                }
                assert forall|j: int| 0 <= j < i + 1 && #[trigger] live(old(self)@, j) implies {
                    &&& at(after, j) == NodeView {
                        children: at(after, j).children,
                        ..at(old(self)@, j)
                    }
                    &&& stable_desc(sizes@, at(old(self)@, j).children, at(after, j).children)
                } by {
                    if j < i {
                        assert(after[j] == before[j]);
                    } else {
                        assert(before[j] == old(self)@[j]);
                    }
                }
            }
            i = i + 1;
        }
        proof {
            let a = old(self)@;
            let b = self@;
            assert(children_sorted(a, b));
            lemma_children_sorted_wf(a, b);
            assert forall|i: int, k: int, l: int|
                live(b, i) && 0 <= k < l < at(b, i).children.len() implies at(
                b,
                (#[trigger] at(b, i).children[k]).0 as int,
            ).size >= at(b, (#[trigger] at(b, i).children[l]).0 as int).size by {
                assert(live(a, i));
                let cs = at(b, i).children;
                assert(ranks_before(sizes@, at(a, i).children, cs[k], cs[l]));
                lemma_child_above(b, i, k);
                lemma_child_above(b, i, l);
                assert(live(a, cs[k].0 as int));
                assert(live(a, cs[l].0 as int));
            }
        }
    }
}

impl DiskTree {
    /// Tombstone one slot.
    fn tombstone(&mut self, j: usize)
        requires
            j < old(self)@.len(),
        ensures
            final(self)@ == old(self)@.update(j as int, None),
            final(self).spec_root_path() == old(self).spec_root_path(),
    {
        self.nodes[j] = None;
        assert(final(self)@ =~= old(self)@.update(j as int, None));
    }

    /// Collect all descendants of a node, depth first: each child, followed at
    /// once by its own descendants.
    pub fn collect_descendants(&self, id: NodeId, result: &mut Vec<NodeId>)
        requires
            self.wf(),
        ensures
            final(result)@ == old(result)@ + descendants(self@, id),
        decreases self@.len() - id.0,
    {
        match self.get(id) {
            Some(node) => {
                let mut k: usize = 0;
                assert(node.children@.subrange(0, 0) =~= Seq::<NodeId>::empty());
                assert(result@ =~= old(result)@ + descendants_of(
                    self@,
                    id.0 as int,
                    node.children@.subrange(0, 0),
                ));
                while k < node.children.len()
                    invariant
                        k <= node.children@.len(),
                        self.wf(),
                        live(self@, id.0 as int),
                        node@ == at(self@, id.0 as int),
                        result@ == old(result)@ + descendants_of(
                            self@,
                            id.0 as int,
                            node.children@.subrange(0, k as int),
                        ),
                    decreases node.children@.len() - k,
                {
                    let c = node.children[k];
                    let ghost pre = node.children@.subrange(0, k as int);
                    let ghost next = node.children@.subrange(0, k as int + 1);
                    let ghost head = old(result)@;
                    proof {
                        assert(next.drop_last() =~= pre);
                        assert(next.last() == c);
                        lemma_child_above(self@, id.0 as int, k as int);
                    }
                    result.push(c);
                    self.collect_descendants(c, result);
                    assert(result@ =~= head + descendants_of(self@, id.0 as int, next));
                    k = k + 1;
                }
                assert(node.children@.subrange(0, k as int) =~= node.children@);
            },
            None => {
                assert(result@ =~= old(result)@ + descendants(self@, id));
            },
        }
    }

    /// Tombstone `id` and all its descendants.
    fn tombstone_subtree(&mut self, id: usize)
        requires
            old(self).wf(),
            live(old(self)@, id as int),
            id != 0,
        ensures
            final(self)@ == tombstoned(old(self)@, id as int),
            final(self).spec_root_path() == old(self).spec_root_path(),
    {
        let ghost t = self@;
        let mut to_remove: Vec<NodeId> = Vec::new();
        to_remove.push(NodeId(id));
        self.collect_descendants(NodeId(id), &mut to_remove);
        proof {
            lemma_descendants_are_subtree(t, id as int);
            assert(to_remove@ =~= seq![NodeId(id)] + descendants(t, NodeId(id)));
        }
        let mut k: usize = 0;
        while k < to_remove.len()
            invariant
                k <= to_remove@.len(),
                self@.len() == t.len(),
                t.len() <= usize::MAX,
                self.spec_root_path() == old(self).spec_root_path(),
                forall|m: int| 0 <= m < to_remove@.len() ==> (#[trigger] to_remove@[m]).0 < t.len(),
                forall|j: int|
                    0 <= j < t.len() ==> #[trigger] self@[j] == if to_remove@.subrange(
                        0,
                        k as int,
                    ).contains(NodeId(j as usize)) {
                        None
                    } else {
                        t[j]
                    },
            decreases to_remove@.len() - k,
        {
            let x = to_remove[k];
            let ghost before = self@;
            let ghost pre = to_remove@.subrange(0, k as int);
            let ghost next = to_remove@.subrange(0, k as int + 1);
            self.tombstone(x.0);
            proof {
                assert(next =~= pre.push(x));
                assert forall|j: int| 0 <= j < t.len() implies #[trigger] self@[j] == if next.contains(
                    NodeId(j as usize),
                ) {
                    None
                } else {
                    t[j]
                } by {
                    let jn = NodeId(j as usize);
                    assert(before[j] == if pre.contains(jn) { None } else { t[j] });
                    if j == x.0 {
                        assert(next[k as int] == jn);
                    } else {
                        if pre.contains(jn) {
                            let m = choose|m: int| 0 <= m < pre.len() && pre[m] == jn;
                            assert(next[m] == jn);
                        }
                        if next.contains(jn) {
                            let m = choose|m: int| 0 <= m < next.len() && next[m] == jn;
                            assert(m != k) by {
                                assert(jn.0 as int == j);
                            }
                            assert(pre[m] == jn);
                        }
                    }
                }
            }
            k = k + 1;
        }
        proof {
            let all = to_remove@;
            let d = descendants(t, NodeId(id));
            assert(all.subrange(0, k as int) =~= all);
            assert forall|j: int| 0 <= j < t.len() implies self@[j] == tombstoned(t, id as int)[j] by {
                let jn = NodeId(j as usize);
                if all.contains(jn) {
                    let m = choose|m: int| 0 <= m < all.len() && all[m] == jn;
                    if m > 0 {
                        assert(d[m - 1] == jn);
                        assert(d.contains(jn));
                    }
                }
                if j == id {
                    assert(all[0] == jn);
                }
                if d.contains(jn) {
                    let m = choose|m: int| 0 <= m < d.len() && d[m] == jn;
                    assert(all[m + 1] == jn);
                }
                assert(in_subtree(t, id as int, j) <==> j == id || d.contains(jn));
            }
            assert(self@ =~= tombstoned(t, id as int));
        }
    }

    /// Take `c` out of the children that node `p` lists.
    fn unlink_child(&mut self, p: usize, c: NodeId)
        requires
            live(old(self)@, p as int),
        ensures
            final(self)@ == old(self)@.update(
                p as int,
                Some(
                    NodeView {
                        children: without(at(old(self)@, p as int).children, c),
                        ..at(old(self)@, p as int)
                    },
                ),
            ),
            final(self).spec_root_path() == old(self).spec_root_path(),
    {
        match &mut self.nodes[p] {
            Some(node) => {
                let mut kept: Vec<NodeId> = Vec::new();
                let mut k: usize = 0;
                while k < node.children.len()
                    invariant
                        k <= node.children@.len(),
                        kept@ == without(node.children@.subrange(0, k as int), c),
                    decreases node.children@.len() - k,
                {
                    let x = node.children[k];
                    let ghost next = node.children@.subrange(0, k as int + 1);
                    assert(next.drop_last() =~= node.children@.subrange(0, k as int));
                    assert(next.last() == x);
                    if x.0 != c.0 {
                        kept.push(x);
                    }
                    k = k + 1;
                }
                assert(node.children@.subrange(0, k as int) =~= node.children@);
                node.children = kept;
            },
            None => {},
        }
        assert(final(self)@ =~= old(self)@.update(
            p as int,
            Some(
                NodeView {
                    children: without(at(old(self)@, p as int).children, c),
                    ..at(old(self)@, p as int)
                },
            ),
        ));
    }

    /// Shrink the totals of one node and report where its parent is.
    fn shrink_node(&mut self, j: usize, size: u64, files: u64) -> (parent: Option<NodeId>)
        requires
            live(old(self)@, j as int),
        ensures
            final(self)@ == old(self)@.update(
                j as int,
                Some(shrunk(at(old(self)@, j as int), size, files)),
            ),
            parent == at(old(self)@, j as int).parent,
            final(self).spec_root_path() == old(self).spec_root_path(),
    {
        let mut parent: Option<NodeId> = None;
        match &mut self.nodes[j] {
            Some(node) => {
                node.size = if node.size >= size { node.size - size } else { 0 };
                node.file_count = if node.file_count >= files { node.file_count - files } else { 0 };
                parent = node.parent;
            },
            None => {},
        }
        assert(final(self)@ =~= old(self)@.update(
            j as int,
            Some(shrunk(at(old(self)@, j as int), size, files)),
        ));
        parent
    }

    /// Walk from `start` to the root and shrink the totals of every node on the way.
    fn shrink_chain(&mut self, start: usize, size: u64, files: u64)
        requires
            old(self).wf(),
            live(old(self)@, start as int),
        ensures
            final(self)@ == chain_shrunk(old(self)@, start as int, size, files),
            final(self).spec_root_path() == old(self).spec_root_path(),
    {
        let ghost s = self@;
        let mut current: Option<NodeId> = Some(NodeId(start));
        let ghost mut cur: int = start as int;
        assert(self@ =~= chain_shrunk_below(s, start as int, cur, size, files));
        while current.is_some()
            invariant
                wf(s),
                live(s, start as int),
                self.spec_root_path() == old(self).spec_root_path(),
                cur == (match current {
                    Some(c) => c.0 as int,
                    None => -1,
                }),
                current is Some ==> live(s, cur) && in_subtree(s, cur, start as int),
                self@ == chain_shrunk_below(s, start as int, cur, size, files),
            decreases cur + 1,
        {
            let c = current.unwrap();
            proof {
                lemma_shrink_step(s, start as int, cur, size, files);
            }
            current = self.shrink_node(c.0, size, files);
            proof {
                cur = parent_idx(s, cur);
            }
        }
        proof {
            lemma_shrink_step(s, start as int, start as int, size, files);
        }
    }

    /// Remove a node and all its descendants and return the bytes freed; the root
    /// and absent nodes are left alone, for 0 bytes. Only the tree changes: the
    /// slots become tombstones, the parent no longer lists the node, and the totals
    /// of every ancestor go down by those of the node, never below 0.
    pub fn remove_node(&mut self, id: NodeId) -> (freed: u64)
        requires
            old(self).wf(),
        ensures
            final(self).wf(),
            final(self)@ == removed(old(self)@, id.0 as int),
            final(self).spec_root_path() == old(self).spec_root_path(),
            freed == if id.0 == 0 || !live(old(self)@, id.0 as int) {
                0
            } else {
                at(old(self)@, id.0 as int).size
            },
    {
        if id.0 == 0 {
            return 0;
        }
        let (size, file_count, parent) = match self.get(id) {
            Some(node) => (node.size, node.file_count, node.parent),
            None => {
                return 0;
            },
        };
        let ghost t = self@;
        proof {
            lemma_parent_live(t, id.0 as int);
            lemma_pruned_wf(t, id.0 as int);
        }
        let p = parent.unwrap();
        self.tombstone_subtree(id.0);
        proof {
            assert(p.0 as int == parent_idx(t, id.0 as int));
            assert(!in_subtree(t, id.0 as int, p.0 as int)) by {
                if is_ancestor(t, id.0 as int, p.0 as int) {
                    lemma_ancestor_below(t, id.0 as int, p.0 as int);
                }
            }
            assert(self@[p.0 as int] == t[p.0 as int]);
        }
        self.unlink_child(p.0, id);
        assert(self@ =~= pruned(t, id.0 as int));
        self.shrink_chain(p.0, size, file_count);
        proof {
            lemma_wf_same_links(pruned(t, id.0 as int), self@);
        }
        size
    }
}

impl DiskTree {
    /// The path that the place of node `i` gives it: its parent's path with its own
    /// name adjoined.
    fn joined_path(&self, i: usize) -> (r: String)
        requires
            live(self@, i as int),
            live(self@, parent_idx(self@, i as int)),
        ensures
            r@ == path_join(at(self@, parent_idx(self@, i as int)).path, at(self@, i as int).name),
    {
        match &self.nodes[i] {
            Some(node) => match node.parent {
                Some(p) => match &self.nodes[p.0] {
                    Some(parent) => join(parent.path.as_str(), node.name.as_str()),
                    None => String::new(),
                },
                None => String::new(),
            },
            None => String::new(),
        }
    }

    /// Store the path of a node.
    fn set_path(&mut self, i: usize, path: String)
        requires
            live(old(self)@, i as int),
        ensures
            final(self)@ == old(self)@.update(
                i as int,
                Some(NodeView { path: path@, ..at(old(self)@, i as int) }),
            ),
            final(self).spec_root_path() == old(self).spec_root_path(),
    {
        match &mut self.nodes[i] {
            Some(node) => {
                node.path = path;
            },
            None => {},
        }
        assert(final(self)@ =~= old(self)@.update(
            i as int,
            Some(NodeView { path: path@, ..at(old(self)@, i as int) }),
        ));
    }

    /// Give every node the path that its place in the tree gives it: the root gets
    /// the root path, every other live node its parent's path with its own name
    /// adjoined. Nothing but paths changes. Meant for a tree that was stored without
    /// its paths.
    pub fn rebuild_paths(&mut self)
        requires
            old(self).wf(),
        ensures
            final(self).wf(),
            final(self).spec_root_path() == old(self).spec_root_path(),
            same_but_paths(old(self)@, final(self)@),
            paths_rebuilt(final(self)@, final(self).spec_root_path()),
    {
        let n = self.len();
        let root_path = self.root_path.clone();
        let ghost t = self@;
        assert(live(t, 0));
        self.set_path(0, root_path);
        proof {
            lemma_wf_same_links(t, self@);
        }
        let mut i: usize = 1;
        while i < n
            invariant
                1 <= i <= n,
                n == self@.len(),
                wf(t),
                wf(self@),
                t == old(self)@,
                self.spec_root_path() == old(self).spec_root_path(),
                same_but_paths(t, self@),
                forall|j: int| 0 <= j < i && #[trigger] live(self@, j) ==> path_ok(
                    self@,
                    self.spec_root_path(),
                    j,
                ),
            decreases n - i,
        {
            let ghost before = self@;
            if self.nodes[i].is_some() {
                proof {
                    lemma_parent_live(before, i as int);
                }
                let path = self.joined_path(i);
                self.set_path(i, path);
                proof {
                    lemma_repath_step(t, before, self@, self.spec_root_path(), i as int);
                }
            }
            i = i + 1;
        }
    }

    /// Get visible nodes in display order, starting at `root`: a pre-order walk that
    /// descends into the children of expanded nodes only.
    pub fn visible_nodes(&self, root: NodeId) -> (r: Vec<NodeId>)
        requires
            self.wf(),
        ensures
            r@ == visible(self@, root),
    {
        let mut result: Vec<NodeId> = Vec::new();
        self.collect_visible(root, &mut result);
        result
    }

    fn collect_visible(&self, id: NodeId, result: &mut Vec<NodeId>)
        requires
            self.wf(),
        ensures
            final(result)@ == old(result)@ + visible(self@, id),
        decreases self@.len() - id.0,
    {
        result.push(id);
        assert(result@ =~= old(result)@ + seq![id]);
        match self.get(id) {
            Some(node) => {
                if node.is_expanded {
                    let mut k: usize = 0;
                    assert(node.children@.subrange(0, 0) =~= Seq::<NodeId>::empty());
                    while k < node.children.len()
                        invariant
                            k <= node.children@.len(),
                            self.wf(),
                            live(self@, id.0 as int),
                            node@ == at(self@, id.0 as int),
                            result@ == old(result)@ + seq![id] + visible_list(
                                self@,
                                id.0 as int,
                                node.children@.subrange(0, k as int),
                            ),
                        decreases node.children@.len() - k,
                    {
                        let c = node.children[k];
                        let ghost pre = node.children@.subrange(0, k as int);
                        let ghost next = node.children@.subrange(0, k as int + 1);
                        let ghost head = old(result)@ + seq![id];
                        proof {
                            assert(next.drop_last() =~= pre);
                            assert(next.last() == c);
                            lemma_child_above(self@, id.0 as int, k as int);
                        }
                        self.collect_visible(c, result);
                        assert(result@ =~= head + visible_list(self@, id.0 as int, next));
                        k = k + 1;
                    }
                    assert(node.children@.subrange(0, k as int) =~= node.children@);
                    assert(result@ =~= old(result)@ + visible(self@, id));
                }
            },
            None => {},
        }
    }

    /// Get the chain of nodes from the root down to `id`.
    pub fn path_to_node(&self, id: NodeId) -> (r: Vec<NodeId>)
        requires
            self.wf(),
        ensures
            r@ == path_to(self@, id),
    {
        let mut path: Vec<NodeId> = Vec::new();
        let mut current: Option<NodeId> = Some(id);
        while current.is_some()
            invariant
                self.wf(),
                match current {
                    Some(c) => path_to(self@, id) == path_to(self@, c) + path@,
                    None => path_to(self@, id) == path@,
                },
            decreases
                    match current {
                        Some(c) => c.0 + 1,
                        None => 0,
                    },
        {
            let c = current.unwrap();
            let ghost tail = path@;
            path.insert(0, c);
            assert(path@ =~= seq![c] + tail);
            current = match self.get(c) {
                Some(node) => node.parent,
                None => None,
            };
            proof {
                if live(self@, c.0 as int) {
                    if c.0 != 0 {
                        lemma_parent_live(self@, c.0 as int);
                        let p = at(self@, c.0 as int).parent->0;
                        assert(path_to(self@, c) == path_to(self@, p).push(c));
                        assert(path_to(self@, c) + tail =~= path_to(self@, p) + path@);
                    } else {
                        assert(at(self@, 0).parent is None);
                        assert(path_to(self@, c) + tail =~= path@);
                    }
                } else {
                    assert(path_to(self@, c) + tail =~= path@);
                }
            }
        }
        path
    }

    /// The names of the nodes from the root down to `id`, with `/` between them.
    pub fn breadcrumbs(&self, id: NodeId) -> (r: String)
        requires
            self.wf(),
        ensures
            r@ == slash_joined(live_names(self@, path_to(self@, id))),
    {
        let path = self.path_to_node(id);
        let mut out = String::new();
        let mut count: usize = 0;
        let mut k: usize = 0;
        assert(path@.subrange(0, 0) =~= Seq::<NodeId>::empty());
        while k < path.len()
            invariant
                k <= path@.len(),
                count == live_names(self@, path@.subrange(0, k as int)).len(),
                count <= k,
                out@ == slash_joined(live_names(self@, path@.subrange(0, k as int))),
            decreases path@.len() - k,
        {
            let ghost pre = path@.subrange(0, k as int);
            let ghost next = path@.subrange(0, k as int + 1);
            assert(next.drop_last() =~= pre);
            assert(next.last() == path@[k as int]);
            match self.get(path[k]) {
                Some(node) => {
                    let ghost names = live_names(self@, next);
                    assert(names.drop_last() =~= live_names(self@, pre));
                    if count > 0 {
                        out.append("/");
                        proof {
                            reveal_strlit("/");
                            assert("/"@ =~= seq!['/']);
                        }
                    }
                    out.append(node.name.as_str());
                    count = count + 1;
                    assert(out@ =~= slash_joined(names));
                },
                None => {},
            }
            k = k + 1;
        }
        assert(path@.subrange(0, k as int) =~= path@);
        out
    }

    /// Expand every directory on the way from the root down to `id`.
    pub fn expand_to(&mut self, id: NodeId)
        requires
            old(self).wf(),
        ensures
            final(self).wf(),
            final(self)@ == expanded_all(old(self)@, path_to(old(self)@, id)),
            final(self).spec_root_path() == old(self).spec_root_path(),
    {
        let path = self.path_to_node(id);
        let mut k: usize = 0;
        assert(path@.subrange(0, 0) =~= Seq::<NodeId>::empty());
        while k < path.len()
            invariant
                k <= path@.len(),
                self.wf(),
                self.spec_root_path() == old(self).spec_root_path(),
                self@ == expanded_all(old(self)@, path@.subrange(0, k as int)),
            decreases path@.len() - k,
        {
            let ghost pre = path@.subrange(0, k as int);
            let ghost next = path@.subrange(0, k as int + 1);
            assert(next.drop_last() =~= pre);
            assert(next.last() == path@[k as int]);
            self.set_expanded(path[k], true);
            k = k + 1;
        }
        assert(path@.subrange(0, k as int) =~= path@);
    }

    /// Find the first live node with the given path.
    pub fn find_by_path(&self, path: &str) -> (r: Option<NodeId>)
        ensures
            match r {
                Some(id) => live(self@, id.0 as int) && at(self@, id.0 as int).path == path@
                    && forall|j: int| 0 <= j < id.0 && #[trigger] live(self@, j) ==> at(self@, j).path != path@,
                None => forall|j: int| #[trigger] live(self@, j) ==> at(self@, j).path != path@,
            },
    {
        let mut i: usize = 0;
        while i < self.nodes.len()
            invariant
                i <= self.nodes@.len(),
                forall|j: int| 0 <= j < i && #[trigger] live(self@, j) ==> at(self@, j).path != path@,
            decreases self.nodes@.len() - i,
        {
            match &self.nodes[i] {
                Some(node) => {
                    if same_text(node.path.as_str(), path) {
                        return Some(NodeId(i));
                    }
                },
                None => {},
            }
            i = i + 1;
        }
        None
    }

    /// All live nodes in slot order, the root first; tombstones are skipped.
    pub fn iter(&self) -> (r: Vec<&TreeNode>)
        ensures
            r@.len() == count_live(self@, self@.len() as int),
            live_views(r@) == live_nodes(self@, self@.len() as int),
    {
        let mut out: Vec<&TreeNode> = Vec::new();
        let mut i: usize = 0;
        while i < self.nodes.len()
            invariant
                i <= self.nodes@.len(),
                out@.len() == count_live(self@, i as int),
                live_views(out@) == live_nodes(self@, i as int),
            decreases self.nodes@.len() - i,
        {
            match &self.nodes[i] {
                Some(node) => {
                    let ghost pre = out@;
                    out.push(node);
                    assert(out@.drop_last() =~= pre);
                    assert(live_views(out@) =~= live_nodes(self@, i as int + 1));
                },
                None => {},
            }
            i = i + 1;
        }
        out
    }
}

impl DiskTree {
    /// Whether slot `i` is in order as far as it and the slots below it go: it
    /// carries its own index, and but for the root it names a live parent below
    /// it, one level up.
    fn check_upward(nodes: &Vec<Option<TreeNode>>, i: usize) -> (ok: bool)
        requires
            i < nodes@.len(),
        ensures
            ok == upward_ok(slots_of(nodes@), i as int),
    {
        match &nodes[i] {
            Some(node) => {
                if node.id.0 != i {
                    return false;
                }
                match node.parent {
                    None => i == 0 && node.depth == 0,
                    Some(p) => {
                        if i == 0 || p.0 >= i {
                            return false;
                        }
                        match &nodes[p.0] {
                            Some(parent) => parent.depth < 0xffff && node.depth == parent.depth + 1,
                            None => false,
                        }
                    },
                }
            },
            None => true,
        }
    }

    /// Whether `c` may stand in the children of node `i`: it is a live node that
    /// names `i` as its parent.
    fn check_child(nodes: &Vec<Option<TreeNode>>, i: usize, c: NodeId) -> (ok: bool)
        ensures
            ok == (live(slots_of(nodes@), c.0 as int) && at(slots_of(nodes@), c.0 as int).parent
                == Some(NodeId(i))),
    {
        if c.0 >= nodes.len() {
            return false;
        }
        match &nodes[c.0] {
            Some(child) => match child.parent {
                Some(p) => p.0 == i,
                None => false,
            },
            None => false,
        }
    }

    /// Make a tree from its parts, as they come out of a cache file. The parts
    /// are taken exactly if together they are a well-formed tree.
    pub fn from_parts(root_path: String, nodes: Vec<Option<TreeNode>>) -> (r: Option<DiskTree>)
        ensures
            r is Some <==> wf(slots_of(nodes@)),
            r is Some ==> r->0@ == slots_of(nodes@) && r->0.spec_root_path() == root_path@,
    {
        let n = nodes.len();
        let ghost t = slots_of(nodes@);
        if n == 0 {
            return None;
        }
        if nodes[0].is_none() {
            return None;
        }
        let mut i: usize = 0;
        while i < n
            invariant
                i <= n,
                n == nodes@.len(),
                t == slots_of(nodes@),
                forall|j: int| 0 <= j < i ==> upward_ok(t, j),
            decreases n - i,
        {
            if !Self::check_upward(&nodes, i) {
                proof {
                    if wf(t) {
                        assert(live(t, 0));
                        assert(live(t, i as int));
                        if i != 0 {
                            assert(parent_ok(t, i as int));
                        }
                    }
                }
                return None;
            }
            i = i + 1;
        }
        let mut seen: Vec<bool> = Vec::new();
        let mut s: usize = 0;
        while s < n
            invariant
                s <= n,
                seen@.len() == s,
                forall|c: int| 0 <= c < s ==> !seen@[c],
            decreases n - s,
        {
            seen.push(false);
            s = s + 1;
        }
        let mut i: usize = 0;
        while i < n
            invariant
                i <= n,
                n == nodes@.len(),
                n == seen@.len(),
                t == slots_of(nodes@),
                forall|j: int| 0 <= j < n ==> upward_ok(t, j),
                forall|j: int| 0 <= j < i && #[trigger] live(t, j) ==> children_ok(t, j),
                forall|c: int| 0 <= c < n ==> (#[trigger] seen@[c] <==> listed(t, c, i as int, -1, 0)),
            decreases n - i,
        {
            match &nodes[i] {
                Some(node) => {
                    let mut k: usize = 0;
                    assert(live(t, i as int));
                    assert(node@ == at(t, i as int));
                    proof {
                        assert(node.children@.subrange(0, 0) =~= Seq::<NodeId>::empty());
                        assert forall|c: int| 0 <= c < n implies (#[trigger] seen@[c] <==> listed(
                            t,
                            c,
                            i as int,
                            i as int,
                            0,
                        )) by {
                            assert(seen@[c] <==> listed(t, c, i as int, -1, 0));
                        }
                    }
                    while k < node.children.len()
                        invariant
                            k <= node.children@.len(),
                            i < n,
                            n == nodes@.len(),
                            n == seen@.len(),
                            t == slots_of(nodes@),
                            live(t, i as int),
                            node@ == at(t, i as int),
                            forall|j: int| 0 <= j < n ==> upward_ok(t, j),
                            forall|j: int| 0 <= j < i && #[trigger] live(t, j) ==> children_ok(t, j),
                            node.children@.subrange(0, k as int).no_duplicates(),
                            forall|m: int|
                                0 <= m < k ==> live(t, (#[trigger] node.children@[m]).0 as int) && at(
                                    t,
                                    node.children@[m].0 as int,
                                ).parent == Some(NodeId(i)),
                            forall|c: int|
                                0 <= c < n ==> (#[trigger] seen@[c] <==> listed(
                                    t,
                                    c,
                                    i as int,
                                    i as int,
                                    k as int,
                                )),
                        decreases node.children@.len() - k,
                    {
                        let c = node.children[k];
                        let ghost pre = node.children@.subrange(0, k as int);
                        let ghost next = node.children@.subrange(0, k as int + 1);
                        if !Self::check_child(&nodes, i, c) {
                            proof {
                                if wf(t) {
                                    assert(children_ok(t, i as int));
                                    assert(live(t, node.children@[k as int].0 as int));
                                }
                            }
                            return None;
                        }
                        if seen[c.0] {
                            proof {
                                assert(listed(t, c.0 as int, i as int, i as int, k as int));
                                assert(parent_idx(t, c.0 as int) == i);
                                assert(pre.contains(c));
                                let m = choose|m: int| 0 <= m < pre.len() && pre[m] == c;
                                assert(node.children@[m] == node.children@[k as int]);
                                if wf(t) {
                                    assert(children_ok(t, i as int));
                                }
                            }
                            return None;
                        }
                        let ghost seen0 = seen@;
                        seen.set(c.0, true);
                        proof {
                            assert(next =~= pre.push(c));
                            assert(!pre.contains(c)) by {
                                assert(!listed(t, c.0 as int, i as int, i as int, k as int));
                            }
                            assert(next.no_duplicates()) by {
                                assert forall|a: int, b: int|
                                    0 <= a < next.len() && 0 <= b < next.len() && a != b implies next[a]
                                    != next[b] by {
                                    if a < pre.len() && b < pre.len() {
                                    } else if a < pre.len() {
                                        assert(pre.contains(pre[a]));
                                    } else {
                                        assert(pre.contains(pre[b]));
                                    }
                                }
                            }
                            assert forall|x: int| 0 <= x < n implies (#[trigger] seen@[x] <==> listed(
                                t,
                                x,
                                i as int,
                                i as int,
                                k as int + 1,
                            )) by {
                                assert(seen0[x] <==> listed(t, x, i as int, i as int, k as int));
                                if x == c.0 {
                                    assert(next[k as int] == c);
                                    assert(next.contains(NodeId(x as usize)));
                                } else {
                                    if pre.contains(NodeId(x as usize)) {
                                        let m = choose|m: int|
                                            0 <= m < pre.len() && pre[m] == NodeId(x as usize);
                                        assert(next[m] == NodeId(x as usize));
                                    }
                                    if next.contains(NodeId(x as usize)) {
                                        let m = choose|m: int|
                                            0 <= m < next.len() && next[m] == NodeId(x as usize);
                                        assert(m < k);
                                        assert(pre[m] == NodeId(x as usize));
                                    }
                                }
                            }
                        }
                        k = k + 1;
                    }
                    proof {
                        assert(node.children@.subrange(0, k as int) =~= node.children@);
                        assert(children_ok(t, i as int));
                        assert forall|c: int| 0 <= c < n implies (#[trigger] seen@[c] <==> listed(
                            t,
                            c,
                            i as int + 1,
                            -1,
                            0,
                        )) by {
                            assert(seen@[c] <==> listed(t, c, i as int, i as int, k as int));
                            assert(at(t, -1).children.subrange(0, 0) =~= Seq::<NodeId>::empty());
                        }
                    }
                },
                None => {
                    proof {
                        assert forall|c: int| 0 <= c < n implies (#[trigger] seen@[c] <==> listed(
                            t,
                            c,
                            i as int + 1,
                            -1,
                            0,
                        )) by {
                            assert(seen@[c] <==> listed(t, c, i as int, -1, 0));
                        }
                    }
                },
            }
            i = i + 1;
        }
        let mut i: usize = 1;
        while i < n
            invariant
                1 <= i <= n,
                n == nodes@.len(),
                n == seen@.len(),
                t == slots_of(nodes@),
                forall|j: int| 0 <= j < n ==> upward_ok(t, j),
                forall|j: int| 0 <= j < n && #[trigger] live(t, j) ==> children_ok(t, j),
                forall|c: int| 0 <= c < n ==> (#[trigger] seen@[c] <==> listed(t, c, n as int, -1, 0)),
                forall|j: int| 1 <= j < i && #[trigger] live(t, j) ==> parent_ok(t, j),
            decreases n - i,
        {
            if nodes[i].is_some() {
                if !seen[i] {
                    proof {
                        assert(!listed(t, i as int, n as int, -1, 0));
                        assert(upward_ok(t, i as int));
                        if wf(t) {
                            assert(live(t, i as int));
                            assert(parent_ok(t, i as int));
                        }
                    }
                    return None;
                }
                proof {
                    assert(listed(t, i as int, n as int, -1, 0));
                    assert(upward_ok(t, i as int));
                    assert(at(t, -1).children.subrange(0, 0) =~= Seq::<NodeId>::empty());
                }
            }
            i = i + 1;
        }
        proof {
            assert(upward_ok(t, 0));
            assert forall|j: int| #[trigger] live(t, j) implies at(t, j).id == NodeId(j as usize) by {
                assert(upward_ok(t, j));
            }
            assert(wf(t));
        }
        let tree = DiskTree { nodes, root_path };
        assert(tree@ =~= t);
        Some(tree)
    }
}

impl DiskTree {
    /// Get a mutable reference to a node; `None` for a tombstone or an unknown
    /// identifier. Whatever is written through the reference becomes the node:
    /// the caller answers for the invariant.
    pub fn get_mut(&mut self, id: NodeId) -> (r: Option<&mut TreeNode>)
        ensures
            r is Some <==> live(old(self)@, id.0 as int),
            r is None ==> final(self)@ == old(self)@,
            r is Some ==> (*r->0)@ == at(old(self)@, id.0 as int) && final(self)@ == old(self)@.update(
                id.0 as int,
                Some((*final(r->0))@),
            ),
            final(self).spec_root_path() == old(self).spec_root_path(),
    {
        if id.0 < self.nodes.len() {
            self.nodes[id.0].as_mut()
        } else {
            None
        }
    }
}

} // verus!
