//! The mathematical model of the arena: a sequence of slots, each a live node
//! or a tombstone, and the predicates that contracts are stated over.

use vstd::prelude::*;
use crate::tree::node::{NodeId, NodeKind, NodeView, TreeNode};

verus! {

/// The arena as contracts see it: slot `i` holds the node with identifier `i`,
/// or `None` once that node has been removed.
pub type Slots = Seq<Option<NodeView>>;

pub open spec fn slot_view(slot: Option<TreeNode>) -> Option<NodeView> {
    match slot {
        Some(n) => Some(n@),
        None => None,
    }
}

/// Slot `i` exists and holds a node.
pub open spec fn live(t: Slots, i: int) -> bool {
    0 <= i < t.len() && t[i] is Some
}

/// The node in slot `i` (meaningful where `live(t, i)`).
pub open spec fn at(t: Slots, i: int) -> NodeView {
    t[i]->0
}

/// Index of the parent of node `i`, or -1 where it has none.
pub open spec fn parent_idx(t: Slots, i: int) -> int {
    match at(t, i).parent {
        Some(p) => p.0 as int,
        None => -1,
    }
}

/// Node `i` is linked to a live parent with a smaller index that lists it, one level up.
pub open spec fn parent_ok(t: Slots, i: int) -> bool {
    &&& at(t, i).parent is Some
    &&& parent_idx(t, i) < i
    &&& live(t, parent_idx(t, i))
    &&& at(t, parent_idx(t, i)).children.contains(NodeId(i as usize))
    &&& at(t, i).depth == at(t, parent_idx(t, i)).depth + 1
}

/// Every child listed by node `i` is live and names `i` as its parent; none is listed twice.
pub open spec fn children_ok(t: Slots, i: int) -> bool {
    &&& at(t, i).children.no_duplicates()
    &&& forall|k: int|
        0 <= k < at(t, i).children.len() ==> {
            &&& live(t, (#[trigger] at(t, i).children[k]).0 as int)
            &&& at(t, at(t, i).children[k].0 as int).parent == Some(NodeId(i as usize))
        }
}

/// The tree's structural invariant.
pub open spec fn wf(t: Slots) -> bool {
    &&& t.len() >= 1
    &&& t.len() <= usize::MAX
    &&& t[0] is Some
    &&& at(t, 0).parent is None
    &&& at(t, 0).depth == 0
    &&& forall|i: int| #[trigger] live(t, i) ==> at(t, i).id == NodeId(i as usize)
    &&& forall|i: int| #[trigger] live(t, i) && i != 0 ==> parent_ok(t, i)
    &&& forall|i: int| #[trigger] live(t, i) ==> children_ok(t, i)
}

/// `b` has the slots of `a`, with the same nodes live and the same links between them:
/// identifier, parent, children and depth.
pub open spec fn same_links(a: Slots, b: Slots) -> bool {
    &&& a.len() == b.len()
    &&& forall|i: int| 0 <= i < a.len() ==> (#[trigger] a[i] is Some <==> b[i] is Some)
    &&& forall|i: int| #[trigger]
        live(a, i) ==> {
            &&& at(a, i).id == at(b, i).id
            &&& at(a, i).parent == at(b, i).parent
            &&& at(a, i).children == at(b, i).children
            &&& at(a, i).depth == at(b, i).depth
        }
}

/// The invariant speaks of links only, so it carries over to a tree with the same links.
pub proof fn lemma_wf_same_links(a: Slots, b: Slots)
    requires
        wf(a),
        same_links(a, b),
    ensures
        wf(b),
{
    assert(live(a, 0));
    assert forall|i: int| #[trigger] live(b, i) implies at(b, i).id == NodeId(i as usize) by {
        assert(live(a, i));
    }
    assert forall|i: int| #[trigger] live(b, i) && i != 0 implies parent_ok(b, i) by {
        assert(live(a, i));
        assert(parent_ok(a, i));
        assert(live(a, parent_idx(a, i)));
    }
    assert forall|i: int| #[trigger] live(b, i) implies children_ok(b, i) by {
        assert(live(a, i));
        assert(children_ok(a, i));
        assert forall|k: int| 0 <= k < at(b, i).children.len() implies {
            &&& live(b, (#[trigger] at(b, i).children[k]).0 as int)
            &&& at(b, at(b, i).children[k].0 as int).parent == Some(NodeId(i as usize))
        } by {
            let c = at(a, i).children[k];
            assert(live(a, c.0 as int));
        }
    }
}

/// Number of live slots among the first `n`.
pub open spec fn count_live(t: Slots, n: int) -> nat
    decreases n,
{
    if n <= 0 {
        0
    } else {
        count_live(t, n - 1) + if live(t, n - 1) { 1nat } else { 0nat }
    }
}

/// In a well-formed tree every child has a larger index than its parent.
pub proof fn lemma_child_above(t: Slots, i: int, k: int)
    requires
        wf(t),
        live(t, i),
        0 <= k < at(t, i).children.len(),
    ensures
        i < at(t, i).children[k].0 < t.len(),
        live(t, at(t, i).children[k].0 as int),
{
    let c = at(t, i).children[k];
    assert(children_ok(t, i));
    assert(live(t, c.0 as int));
    if c.0 != 0 {
        assert(parent_ok(t, c.0 as int));
    }
}

/// The tree after a node with these attributes has been appended under `parent`:
/// the new slot is last, and a live parent lists it as its last child.
pub open spec fn added(
    t: Slots,
    name: Seq<char>,
    kind: NodeKind,
    path: Seq<char>,
    parent: NodeId,
) -> Slots {
    let id = NodeId(t.len() as usize);
    let p = parent.0 as int;
    let depth = if live(t, p) { (at(t, p).depth + 1) as u16 } else { 1u16 };
    let linked = if live(t, p) {
        t.update(p, Some(NodeView { children: at(t, p).children.push(id), ..at(t, p) }))
    } else {
        t
    };
    linked.push(Some(NodeView::fresh(id, name, kind, path, Some(parent), depth)))
}

pub proof fn lemma_added_wf(
    t: Slots,
    name: Seq<char>,
    kind: NodeKind,
    path: Seq<char>,
    parent: NodeId,
)
    requires
        wf(t),
        live(t, parent.0 as int),
        t.len() < usize::MAX,
        at(t, parent.0 as int).depth < u16::MAX,
    ensures
        wf(added(t, name, kind, path, parent)),
{
    let r = added(t, name, kind, path, parent);
    let n = t.len() as int;
    let p = parent.0 as int;
    let id = NodeId(n as usize);
    assert(live(t, 0));
    assert(p == 0 ==> r[0]->0.parent == at(t, 0).parent);
    assert(live(r, n) && at(r, n).children.len() == 0);
    assert forall|i: int| #[trigger] live(r, i) implies at(r, i).id == NodeId(i as usize) by {
        if i < n {
            assert(live(t, i));
        }
    }
    // no node listed the new identifier before, since every listed child was live
    assert forall|i: int| live(t, i) implies !at(t, i).children.contains(id) by {
        if at(t, i).children.contains(id) {
            let k = choose|k: int| 0 <= k < at(t, i).children.len() && at(t, i).children[k] == id;
            lemma_child_above(t, i, k);
        }
    }
    assert forall|i: int| #[trigger] live(r, i) && i != 0 implies parent_ok(r, i) by {
        if i < n {
            assert(live(t, i));
            assert(parent_ok(t, i));
            let q = parent_idx(t, i);
            assert(live(t, q));
            assert(parent_idx(r, i) == q);
            if q == p {
                let k = choose|k: int|
                    0 <= k < at(t, q).children.len() && at(t, q).children[k] == NodeId(i as usize);
                assert(at(r, q).children[k] == NodeId(i as usize));
            }
        } else {
            assert(at(r, p).children[at(t, p).children.len() as int] == id);
        }
    }
    assert forall|i: int| #[trigger] live(r, i) implies children_ok(r, i) by {
        if i < n {
            assert(live(t, i));
            assert(children_ok(t, i));
            assert forall|k: int| 0 <= k < at(r, i).children.len() implies {
                &&& live(r, (#[trigger] at(r, i).children[k]).0 as int)
                &&& at(r, at(r, i).children[k].0 as int).parent == Some(NodeId(i as usize))
            } by {
                if k < at(t, i).children.len() {
                    let c = at(t, i).children[k];
                    assert(live(t, c.0 as int));
                }
            }
            if i == p {
                assert(!at(t, p).children.contains(id));
                let old_c = at(t, p).children;
                let new_c = at(r, p).children;
                assert(new_c =~= old_c.push(id));
                assert forall|a: int, b: int|
                    0 <= a < new_c.len() && 0 <= b < new_c.len() && a != b implies new_c[a]
                    != new_c[b] by {
                    if a < old_c.len() && b < old_c.len() {
                    } else if a < old_c.len() {
                        assert(old_c.contains(old_c[a]));
                    } else {
                        assert(old_c.contains(old_c[b]));
                    }
                }
            }
        }
    }
}

/// The tree with the size of node `i` replaced, where that node is live.
pub open spec fn with_size(t: Slots, i: int, size: u64) -> Slots {
    if live(t, i) {
        t.update(i, Some(NodeView { size, ..at(t, i) }))
    } else {
        t
    }
}

/// The tree with the modification time of node `i` replaced, where that node is live.
pub open spec fn with_mtime(t: Slots, i: int, mtime: Option<crate::tree::node::Timestamp>) -> Slots {
    if live(t, i) {
        t.update(i, Some(NodeView { mtime, ..at(t, i) }))
    } else {
        t
    }
}

/// The tree with the expansion flag of node `i` replaced, where that node is a live directory.
pub open spec fn with_expanded(t: Slots, i: int, expanded: bool) -> Slots {
    if live(t, i) && at(t, i).kind == NodeKind::Directory {
        t.update(i, Some(NodeView { is_expanded: expanded, ..at(t, i) }))
    } else {
        t
    }
}

/// Sum of the sizes of the live nodes among `cs`.
pub open spec fn sum_sizes(t: Slots, cs: Seq<NodeId>) -> nat
    decreases cs.len(),
{
    if cs.len() == 0 {
        0
    } else {
        sum_sizes(t, cs.drop_last()) + if live(t, cs.last().0 as int) {
            at(t, cs.last().0 as int).size as nat
        } else {
            0nat
        }
    }
}

/// Sum of the file counts of the live nodes among `cs`.
pub open spec fn sum_files(t: Slots, cs: Seq<NodeId>) -> nat
    decreases cs.len(),
{
    if cs.len() == 0 {
        0
    } else {
        sum_files(t, cs.drop_last()) + if live(t, cs.last().0 as int) {
            at(t, cs.last().0 as int).file_count as nat
        } else {
            0nat
        }
    }
}

/// A total as a `u64` holds it: the number itself, or the largest `u64` where it is too large.
pub open spec fn clamp64(n: nat) -> u64 {
    if n > u64::MAX {
        u64::MAX
    } else {
        n as u64
    }
}

/// A live directory in slot `i` carries the totals of its live children.
pub open spec fn aggregated(t: Slots, i: int) -> bool {
    live(t, i) && at(t, i).kind == NodeKind::Directory ==> {
        &&& at(t, i).size == clamp64(sum_sizes(t, at(t, i).children))
        &&& at(t, i).file_count == clamp64(sum_files(t, at(t, i).children))
    }
}

/// `b` is `a` but for the size and file count of directories.
pub open spec fn same_but_totals(a: Slots, b: Slots) -> bool {
    &&& a.len() == b.len()
    &&& forall|i: int| 0 <= i < a.len() ==> (#[trigger] a[i] is Some <==> b[i] is Some)
    &&& forall|i: int| #[trigger]
        live(a, i) ==> {
            &&& at(b, i) == NodeView { size: at(b, i).size, file_count: at(b, i).file_count, ..at(a, i) }
            &&& at(a, i).kind != NodeKind::Directory ==> at(b, i) == at(a, i)
        }
}

/// The sums over `cs` read only the slots that `cs` names.
pub proof fn lemma_sums_frame(a: Slots, b: Slots, cs: Seq<NodeId>)
    requires
        forall|k: int|
            0 <= k < cs.len() ==> {
                &&& live(a, (#[trigger] cs[k]).0 as int) == live(b, cs[k].0 as int)
                &&& live(a, cs[k].0 as int) ==> at(a, cs[k].0 as int).size == at(b, cs[k].0 as int).size
                    && at(a, cs[k].0 as int).file_count == at(b, cs[k].0 as int).file_count
            },
    ensures
        sum_sizes(a, cs) == sum_sizes(b, cs),
        sum_files(a, cs) == sum_files(b, cs),
    decreases cs.len(),
{
    if cs.len() > 0 {
        let init = cs.drop_last();
        assert forall|k: int| 0 <= k < init.len() implies {
            &&& live(a, (#[trigger] init[k]).0 as int) == live(b, init[k].0 as int)
            &&& live(a, init[k].0 as int) ==> at(a, init[k].0 as int).size == at(
                b,
                init[k].0 as int,
            ).size && at(a, init[k].0 as int).file_count == at(b, init[k].0 as int).file_count
        } by {
            assert(init[k] == cs[k]);
        }
        lemma_sums_frame(a, b, init);
        assert(cs.last() == cs[cs.len() - 1]);
    }
}

/// The sizes of all slots as one flat sequence indexed by identifier; a tombstone counts 0.
pub open spec fn size_snapshot(t: Slots) -> Seq<u64> {
    Seq::new(t.len(), |j: int| if t[j] is Some { at(t, j).size } else { 0u64 })
}

/// The size that `sizes` records for `c`; 0 for an identifier it does not reach.
pub open spec fn snap_key(sizes: Seq<u64>, c: NodeId) -> u64 {
    if c.0 < sizes.len() {
        sizes[c.0 as int]
    } else {
        0
    }
}

/// `a` belongs before `b`: it is larger, or as large and earlier in `old_cs`.
pub open spec fn ranks_before(sizes: Seq<u64>, old_cs: Seq<NodeId>, a: NodeId, b: NodeId) -> bool {
    snap_key(sizes, a) > snap_key(sizes, b) || (snap_key(sizes, a) == snap_key(sizes, b)
        && old_cs.index_of(a) < old_cs.index_of(b))
}

/// `new_cs` is `old_cs` sorted by recorded size, largest first, equal sizes in their old order.
pub open spec fn stable_desc(sizes: Seq<u64>, old_cs: Seq<NodeId>, new_cs: Seq<NodeId>) -> bool {
    &&& new_cs.len() == old_cs.len()
    &&& forall|c: NodeId| #[trigger] new_cs.contains(c) <==> old_cs.contains(c)
    &&& forall|i: int, j: int|
        0 <= i < j < new_cs.len() ==> ranks_before(sizes, old_cs, #[trigger] new_cs[i], #[trigger] new_cs[j])
}

/// `b` is `a` with every node's children sorted by the sizes that `a` records.
pub open spec fn children_sorted(a: Slots, b: Slots) -> bool {
    &&& a.len() == b.len()
    &&& forall|i: int| 0 <= i < a.len() ==> (#[trigger] a[i] is Some <==> b[i] is Some)
    &&& forall|i: int| #[trigger]
        live(a, i) ==> {
            &&& at(b, i) == NodeView { children: at(b, i).children, ..at(a, i) }
            &&& stable_desc(size_snapshot(a), at(a, i).children, at(b, i).children)
        }
}

/// Sorting the children lists keeps the invariant.
pub proof fn lemma_children_sorted_wf(a: Slots, b: Slots)
    requires
        wf(a),
        children_sorted(a, b),
    ensures
        wf(b),
{
    let sizes = size_snapshot(a);
    assert(live(a, 0));
    assert forall|i: int| #[trigger] live(b, i) implies at(b, i).id == NodeId(i as usize) by {
        assert(live(a, i));
    }
    assert forall|i: int| #[trigger] live(b, i) && i != 0 implies parent_ok(b, i) by {
        assert(live(a, i));
        assert(parent_ok(a, i));
        let q = parent_idx(a, i);
        assert(live(a, q));
        assert(at(a, q).children.contains(NodeId(i as usize)));
    }
    assert forall|i: int| #[trigger] live(b, i) implies children_ok(b, i) by {
        assert(live(a, i));
        assert(children_ok(a, i));
        let old_cs = at(a, i).children;
        let new_cs = at(b, i).children;
        assert forall|k: int| 0 <= k < new_cs.len() implies {
            &&& live(b, (#[trigger] new_cs[k]).0 as int)
            &&& at(b, new_cs[k].0 as int).parent == Some(NodeId(i as usize))
        } by {
            assert(new_cs.contains(new_cs[k]));
            assert(old_cs.contains(new_cs[k]));
            let m = choose|m: int| 0 <= m < old_cs.len() && old_cs[m] == new_cs[k];
            assert(live(a, old_cs[m].0 as int));
        }
        assert forall|x: int, y: int|
            0 <= x < new_cs.len() && 0 <= y < new_cs.len() && x != y implies new_cs[x]
            != new_cs[y] by {
            if x < y {
                assert(ranks_before(sizes, old_cs, new_cs[x], new_cs[y]));
            } else {
                assert(ranks_before(sizes, old_cs, new_cs[y], new_cs[x]));
            }
        }
    }
}

/// One step of the bottom-up pass: once directory `d` has been given the totals of
/// its children, it and every slot above it are aggregated.
pub proof fn lemma_aggregate_step(
    o: Slots,
    before: Slots,
    after: Slots,
    d: int,
    total_size: u64,
    total_files: u64,
)
    requires
        wf(before),
        same_but_totals(o, before),
        live(before, d),
        at(before, d).kind == NodeKind::Directory,
        total_size == clamp64(sum_sizes(before, at(before, d).children)),
        total_files == clamp64(sum_files(before, at(before, d).children)),
        after == before.update(
            d,
            Some(NodeView { size: total_size, file_count: total_files, ..at(before, d) }),
        ),
        forall|j: int| d < j < before.len() ==> aggregated(before, j),
    ensures
        wf(after),
        same_but_totals(o, after),
        forall|j: int| d <= j < after.len() ==> aggregated(after, j),
{
    lemma_wf_same_links(before, after);
    assert forall|j: int| d <= j < after.len() implies aggregated(after, j) by {
        if live(after, j) {
            assert(live(before, j));
            let cs = at(after, j).children;
            assert(cs == at(before, j).children);
            assert forall|k: int| 0 <= k < cs.len() implies {
                &&& live(before, (#[trigger] cs[k]).0 as int) == live(after, cs[k].0 as int)
                &&& live(before, cs[k].0 as int) ==> at(before, cs[k].0 as int).size == at(
                    after,
                    cs[k].0 as int,
                ).size && at(before, cs[k].0 as int).file_count == at(
                    after,
                    cs[k].0 as int,
                ).file_count
            } by {
                lemma_child_above(before, j, k);
            }
            lemma_sums_frame(before, after, cs);
            if j > d {
                assert(aggregated(before, j));
            }
        }
    }
    assert forall|j: int| #[trigger] live(o, j) implies {
        &&& at(after, j) == NodeView {
            size: at(after, j).size,
            file_count: at(after, j).file_count,
            ..at(o, j)
        }
        &&& at(o, j).kind != NodeKind::Directory ==> at(after, j) == at(o, j)
    } by {
        assert(live(before, j));
    }
    assert forall|j: int| 0 <= j < o.len() implies (#[trigger] o[j] is Some <==> after[j] is Some) by {
        assert(o[j] is Some <==> before[j] is Some);
    }
}

/// The live nodes among the first `n` slots, in slot order.
pub open spec fn live_nodes(t: Slots, n: int) -> Seq<NodeView>
    decreases n,
{
    if n <= 0 {
        Seq::empty()
    } else if live(t, n - 1) {
        live_nodes(t, n - 1).push(at(t, n - 1))
    } else {
        live_nodes(t, n - 1)
    }
}

/// The values of a list of borrowed nodes.
pub open spec fn live_views(nodes: Seq<&TreeNode>) -> Seq<NodeView>
    decreases nodes.len(),
{
    if nodes.len() == 0 {
        Seq::empty()
    } else {
        live_views(nodes.drop_last()).push(nodes.last()@)
    }
}

/// The slots that a list of nodes stands for.
pub open spec fn slots_of(nodes: Seq<Option<TreeNode>>) -> Slots {
    Seq::new(nodes.len(), |i: int| slot_view(nodes[i]))
}

/// What the invariant asks of slot `i` alone, given the slots below it.
pub open spec fn upward_ok(t: Slots, i: int) -> bool {
    live(t, i) ==> {
        &&& at(t, i).id == NodeId(i as usize)
        &&& if i == 0 {
            at(t, i).parent is None && at(t, i).depth == 0
        } else {
            &&& at(t, i).parent is Some
            &&& parent_idx(t, i) < i
            &&& live(t, parent_idx(t, i))
            &&& at(t, i).depth == at(t, parent_idx(t, i)).depth + 1
        }
    }
}

/// Node `c` is listed by its parent, which is one of the first `n` slots, or it
/// is the parent `i` and lists `c` among its first `k` children.
pub open spec fn listed(t: Slots, c: int, n: int, i: int, k: int) -> bool {
    &&& live(t, c)
    &&& at(t, c).parent is Some
    &&& live(t, parent_idx(t, c))
    &&& (parent_idx(t, c) < n && at(t, parent_idx(t, c)).children.contains(NodeId(c as usize)))
        || (parent_idx(t, c) == i && at(t, i).children.subrange(0, k).contains(
        NodeId(c as usize),
    ))
}

/// After aggregation a directory carries exactly the sums over its live
/// children, wherever those sums fit the 64 bits of a size.
pub proof fn lemma_aggregated_sums(t: Slots, i: int)
    requires
        aggregated(t, i),
        live(t, i),
        at(t, i).kind == NodeKind::Directory,
        sum_sizes(t, at(t, i).children) <= u64::MAX,
        sum_files(t, at(t, i).children) <= u64::MAX,
    ensures
        at(t, i).size == sum_sizes(t, at(t, i).children),
        at(t, i).file_count == sum_files(t, at(t, i).children),
{
}

} // verus!
