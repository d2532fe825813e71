//! What removing a node does to the tree, stated over the model.

use vstd::prelude::*;
use crate::tree::model::{at, children_ok, live, parent_idx, parent_ok, wf, Slots};
use crate::tree::node::{NodeId, NodeView};

verus! {

/// `a` is a proper ancestor of `d`: it is reached from `d` by following parent links.
pub open spec fn is_ancestor(t: Slots, a: int, d: int) -> bool
    decreases d,
{
    if live(t, d) && 0 <= parent_idx(t, d) < d {
        parent_idx(t, d) == a || is_ancestor(t, a, parent_idx(t, d))
    } else {
        false
    }
}

/// `j` is `root` or one of its descendants.
pub open spec fn in_subtree(t: Slots, root: int, j: int) -> bool {
    j == root || is_ancestor(t, root, j)
}

/// `a - b`, or 0 where `b` is the larger.
pub open spec fn sat_sub(a: u64, b: u64) -> u64 {
    if a >= b {
        (a - b) as u64
    } else {
        0
    }
}

/// `cs` without every occurrence of `c`.
pub open spec fn without(cs: Seq<NodeId>, c: NodeId) -> Seq<NodeId>
    decreases cs.len(),
{
    if cs.len() == 0 {
        cs
    } else if cs.last() == c {
        without(cs.drop_last(), c)
    } else {
        without(cs.drop_last(), c).push(cs.last())
    }
}

/// The tree once `id` and its descendants are tombstoned and the parent of `id`
/// no longer lists it; sizes are as before.
pub open spec fn pruned(t: Slots, id: int) -> Slots {
    Seq::new(
        t.len(),
        |j: int|
            if in_subtree(t, id, j) {
                None
            } else if live(t, j) && j == parent_idx(t, id) {
                Some(
                    NodeView { children: without(at(t, j).children, NodeId(id as usize)), ..at(t, j) },
                )
            } else {
                t[j]
            },
    )
}

/// A node whose totals went down by those of a removed node, never below 0.
pub open spec fn shrunk(n: NodeView, size: u64, files: u64) -> NodeView {
    NodeView { size: sat_sub(n.size, size), file_count: sat_sub(n.file_count, files), ..n }
}

/// The tree with the totals of `start` and of each of its ancestors shrunk.
pub open spec fn chain_shrunk(s: Slots, start: int, size: u64, files: u64) -> Slots {
    Seq::new(
        s.len(),
        |j: int|
            if live(s, j) && in_subtree(s, j, start) {
                Some(shrunk(at(s, j), size, files))
            } else {
                s[j]
            },
    )
}

/// The tree after `remove_node(id)`: unchanged where `id` is the root or absent;
/// else the subtree of `id` is tombstoned, its parent no longer lists it, and the
/// totals of every ancestor are shrunk by those that `id` had.
pub open spec fn removed(t: Slots, id: int) -> Slots {
    if id <= 0 || !live(t, id) {
        t
    } else {
        chain_shrunk(pruned(t, id), parent_idx(t, id), at(t, id).size, at(t, id).file_count)
    }
}

pub proof fn lemma_without(cs: Seq<NodeId>, c: NodeId)
    ensures
        forall|x: NodeId| #[trigger] without(cs, c).contains(x) <==> cs.contains(x) && x != c,
        cs.no_duplicates() ==> without(cs, c).no_duplicates(),
        without(cs, c).len() <= cs.len(),
    decreases cs.len(),
{
    if cs.len() > 0 {
        let init = cs.drop_last();
        let last = cs.last();
        lemma_without(init, c);
        let w = without(cs, c);
        let wi = without(init, c);
        assert forall|x: NodeId| #[trigger] w.contains(x) <==> cs.contains(x) && x != c by {
            if w.contains(x) {
                let k = choose|k: int| 0 <= k < w.len() && w[k] == x;
                if last != c && k == w.len() - 1 {
                    assert(cs[cs.len() - 1] == x);
                } else {
                    assert(wi[k] == x);
                    assert(wi.contains(x));
                    assert(init.contains(x));
                    let m = choose|m: int| 0 <= m < init.len() && init[m] == x;
                    assert(cs[m] == x);
                }
            }
            if cs.contains(x) && x != c {
                let m = choose|m: int| 0 <= m < cs.len() && cs[m] == x;
                if m == cs.len() - 1 {
                    assert(w[w.len() - 1] == x);
                } else {
                    assert(init[m] == x);
                    assert(init.contains(x));
                    assert(wi.contains(x));
                    let k = choose|k: int| 0 <= k < wi.len() && wi[k] == x;
                    assert(w[k] == x);
                }
            }
        }
        if cs.no_duplicates() {
            assert(init.no_duplicates());
            if last != c {
                assert(!wi.contains(last)) by {
                    if init.contains(last) {
                        let m = choose|m: int| 0 <= m < init.len() && init[m] == last;
                        assert(cs[m] == cs[cs.len() - 1]);
                    }
                }
                assert forall|a: int, b: int| 0 <= a < w.len() && 0 <= b < w.len() && a != b implies w[a]
                    != w[b] by {
                    if a < wi.len() && b < wi.len() {
                    } else if a < wi.len() {
                        assert(wi.contains(wi[a]));
                    } else {
                        assert(wi.contains(wi[b]));
                    }
                }
            }
        }
    }
}

/// In a well-formed tree the parent of a live node other than the root is live,
/// and below it in the arena.
pub proof fn lemma_parent_live(t: Slots, j: int)
    requires
        wf(t),
        live(t, j),
        j != 0,
    ensures
        0 <= parent_idx(t, j) < j,
        live(t, parent_idx(t, j)),
        in_subtree(t, parent_idx(t, j), j),
{
    assert(parent_ok(t, j));
}

/// A node lies in a subtree exactly if it is its root or its parent lies in it.
pub proof fn lemma_subtree_step(t: Slots, id: int, j: int)
    requires
        wf(t),
        live(t, j),
        j != 0,
        j != id,
    ensures
        in_subtree(t, id, j) == in_subtree(t, id, parent_idx(t, j)),
{
    lemma_parent_live(t, j);
}

/// The root lies in no subtree but its own, and an ancestor has a smaller index.
pub proof fn lemma_ancestor_below(t: Slots, a: int, d: int)
    requires
        is_ancestor(t, a, d),
    ensures
        0 <= a < d,
        live(t, d),
    decreases d,
{
    if parent_idx(t, d) != a {
        lemma_ancestor_below(t, a, parent_idx(t, d));
    }
}

/// Pruning a subtree leaves a well-formed tree.
pub proof fn lemma_pruned_wf(t: Slots, id: int)
    requires
        wf(t),
        live(t, id),
        id != 0,
    ensures
        wf(pruned(t, id)),
{
    let s = pruned(t, id);
    let p = parent_idx(t, id);
    let idn = NodeId(id as usize);
    lemma_parent_live(t, id);
    assert(live(t, 0));
    assert(!in_subtree(t, id, 0)) by {
        if is_ancestor(t, id, 0) {
            lemma_ancestor_below(t, id, 0);
        }
    }
    assert(live(s, 0));
    assert(at(s, 0).parent == at(t, 0).parent && at(s, 0).depth == at(t, 0).depth);
    lemma_without(at(t, p).children, idn);
    assert forall|i: int| #[trigger] live(s, i) implies at(s, i).id == NodeId(i as usize) by {
        assert(live(t, i));
    }
    assert forall|i: int| #[trigger] live(s, i) && i != 0 implies parent_ok(s, i) by {
        assert(live(t, i));
        assert(parent_ok(t, i));
        let q = parent_idx(t, i);
        lemma_subtree_step(t, id, i);
        assert(!in_subtree(t, id, q));
        assert(live(s, q));
        assert(parent_idx(s, i) == q);
        assert(at(t, q).children.contains(NodeId(i as usize)));
        assert(at(s, q).children.contains(NodeId(i as usize)));
    }
    assert forall|i: int| #[trigger] live(s, i) implies children_ok(s, i) by {
        assert(live(t, i));
        assert(children_ok(t, i));
        let cs_t = at(t, i).children;
        let cs = at(s, i).children;
        assert forall|k: int| 0 <= k < cs.len() implies {
            &&& live(s, (#[trigger] cs[k]).0 as int)
            &&& at(s, cs[k].0 as int).parent == Some(NodeId(i as usize))
        } by {
            let c = cs[k];
            assert(cs.contains(c));
            assert(cs_t.contains(c));
            let m = choose|m: int| 0 <= m < cs_t.len() && cs_t[m] == c;
            assert(live(t, cs_t[m].0 as int));
            assert(at(t, c.0 as int).parent == Some(NodeId(i as usize)));
            assert(parent_idx(t, c.0 as int) == i);
            if c.0 as int == id {
                assert(i == p);
                assert(false);
            }
            assert(c.0 != 0) by {
                assert(at(t, 0).parent is None);
            }
            lemma_subtree_step(t, id, c.0 as int);
            assert(!in_subtree(t, id, c.0 as int));
        }
    }
}

/// The tree with the subtree of `id` tombstoned and everything else as it was.
pub open spec fn tombstoned(t: Slots, id: int) -> Slots {
    Seq::new(t.len(), |j: int| if in_subtree(t, id, j) { None } else { t[j] })
}

/// While the chain from `start` upwards is being shrunk and `cur` comes next:
/// the nodes from `start` up to, not including, `cur` are done.
pub open spec fn chain_shrunk_below(s: Slots, start: int, cur: int, size: u64, files: u64) -> Slots {
    Seq::new(
        s.len(),
        |j: int|
            if live(s, j) && in_subtree(s, j, start) && !in_subtree(s, j, cur) {
                Some(shrunk(at(s, j), size, files))
            } else {
                s[j]
            },
    )
}

/// The parent of a node on the way up from `d` is itself on that way.
pub proof fn lemma_ancestor_up(t: Slots, a: int, d: int)
    requires
        wf(t),
        in_subtree(t, a, d),
        live(t, a),
        a != 0,
    ensures
        is_ancestor(t, parent_idx(t, a), d),
    decreases d,
{
    lemma_parent_live(t, a);
    if a != d {
        if parent_idx(t, d) != a {
            lemma_ancestor_up(t, a, parent_idx(t, d));
        }
    }
}

/// Shrinking `cur` takes the chain from "done below `cur`" to "done below its parent".
pub proof fn lemma_shrink_step(s: Slots, start: int, cur: int, size: u64, files: u64)
    requires
        wf(s),
        live(s, start),
        live(s, cur),
        in_subtree(s, cur, start),
    ensures
        chain_shrunk_below(s, start, cur, size, files).update(
            cur,
            Some(shrunk(at(s, cur), size, files)),
        ) == chain_shrunk_below(s, start, parent_idx(s, cur), size, files),
        cur != 0 ==> live(s, parent_idx(s, cur)) && in_subtree(s, parent_idx(s, cur), start)
            && parent_idx(s, cur) < cur,
        cur == 0 ==> parent_idx(s, cur) == -1,
        chain_shrunk_below(s, start, cur, size, files)[cur] == s[cur],
        chain_shrunk_below(s, start, -1, size, files) == chain_shrunk(s, start, size, files),
{
    let q = parent_idx(s, cur);
    let a = chain_shrunk_below(s, start, cur, size, files).update(
        cur,
        Some(shrunk(at(s, cur), size, files)),
    );
    let b = chain_shrunk_below(s, start, q, size, files);
    assert(live(s, 0));
    if cur != 0 {
        lemma_parent_live(s, cur);
        lemma_ancestor_up(s, cur, start);
    }
    assert forall|j: int| 0 <= j < s.len() implies a[j] == b[j] by {
        assert(!in_subtree(s, j, -1int)) by {
            if is_ancestor(s, j, -1int) {
                lemma_ancestor_below(s, j, -1int);
            }
        }
        if j == cur {
            assert(!in_subtree(s, cur, q)) by {
                if is_ancestor(s, cur, q) {
                    lemma_ancestor_below(s, cur, q);
                }
            }
        } else if cur == 0 {
            assert(!is_ancestor(s, j, cur));
        } else {
            assert(is_ancestor(s, j, cur) == (q == j || is_ancestor(s, j, q)));
        }
    }
    assert(a =~= b);
    assert(chain_shrunk_below(s, start, -1, size, files) =~= chain_shrunk(s, start, size, files)) by {
        assert forall|j: int| 0 <= j < s.len() implies !#[trigger] in_subtree(s, j, -1int) by {
            if is_ancestor(s, j, -1int) {
                lemma_ancestor_below(s, j, -1int);
            }
        }
    }
}

/// Outside the pruned subtree the ancestors of a node are what they were.
pub proof fn lemma_ancestor_pruned(t: Slots, id: int, a: int, d: int)
    requires
        wf(t),
        live(t, id),
        id != 0,
        !in_subtree(t, id, d),
    ensures
        is_ancestor(pruned(t, id), a, d) == is_ancestor(t, a, d),
    decreases d,
{
    let s = pruned(t, id);
    if live(t, d) {
        assert(live(s, d));
        assert(parent_idx(s, d) == parent_idx(t, d));
        if d != 0 {
            lemma_parent_live(t, d);
            lemma_subtree_step(t, id, d);
            lemma_ancestor_pruned(t, id, a, parent_idx(t, d));
        } else {
            assert(at(t, 0).parent is None);
        }
    } else {
        assert(!live(s, d));
    }
}

/// What a removal does, seen from the tree before it. Removing a live node other
/// than the root tombstones the node and every descendant; each ancestor loses
/// exactly the node's size and file count, stopping at 0; every other slot is as
/// it was.
pub proof fn lemma_remove_effect(t: Slots, id: int)
    requires
        wf(t),
        live(t, id),
        id != 0,
    ensures
        removed(t, id).len() == t.len(),
        forall|j: int|
            0 <= j < t.len() && #[trigger] in_subtree(t, id, j) ==> removed(t, id)[j] is None,
        forall|j: int| #[trigger]
            is_ancestor(t, j, id) ==> {
                &&& live(t, j)
                &&& live(removed(t, id), j)
                &&& at(removed(t, id), j).size == sat_sub(at(t, j).size, at(t, id).size)
                &&& at(removed(t, id), j).file_count == sat_sub(
                    at(t, j).file_count,
                    at(t, id).file_count,
                )
            },
        forall|j: int|
            0 <= j < t.len() && !in_subtree(t, id, j) && !#[trigger] is_ancestor(t, j, id)
                ==> removed(t, id)[j] == t[j],
{
    let s = pruned(t, id);
    let r = removed(t, id);
    let p = parent_idx(t, id);
    lemma_parent_live(t, id);
    lemma_pruned_wf(t, id);
    assert(!in_subtree(t, id, p)) by {
        if is_ancestor(t, id, p) {
            lemma_ancestor_below(t, id, p);
        }
    }
    assert forall|j: int| 0 <= j < t.len() implies (in_subtree(s, j, p) == #[trigger] is_ancestor(
        t,
        j,
        id,
    )) by {
        lemma_ancestor_pruned(t, id, j, p);
    }
    assert forall|j: int| #[trigger] is_ancestor(t, j, id) implies {
        &&& live(t, j)
        &&& live(r, j)
        &&& at(r, j).size == sat_sub(at(t, j).size, at(t, id).size)
        &&& at(r, j).file_count == sat_sub(at(t, j).file_count, at(t, id).file_count)
    } by {
        lemma_ancestor_below(t, j, id);
        lemma_ancestor_live(t, j, id);
        assert(!in_subtree(t, id, j)) by {
            if is_ancestor(t, id, j) {
                lemma_ancestor_below(t, id, j);
            }
        }
        assert(in_subtree(s, j, p) == is_ancestor(t, j, id));
        assert(live(s, j));
    }
    assert forall|j: int|
        0 <= j < t.len() && !in_subtree(t, id, j) && !#[trigger] is_ancestor(t, j, id) implies r[j]
        == t[j] by {
        assert(in_subtree(s, j, p) == is_ancestor(t, j, id));
        assert(j != p);
    }
}

/// In a well-formed tree every ancestor of a node is live.
pub proof fn lemma_ancestor_live(t: Slots, a: int, d: int)
    requires
        wf(t),
        is_ancestor(t, a, d),
    ensures
        live(t, a),
    decreases d,
{
    lemma_ancestor_below(t, a, d);
    if d != 0 {
        lemma_parent_live(t, d);
        if parent_idx(t, d) != a {
            lemma_ancestor_live(t, a, parent_idx(t, d));
        }
    } else {
        assert(at(t, 0).parent is None);
    }
}

/// Ancestry is transitive.
pub proof fn lemma_ancestor_trans(t: Slots, a: int, b: int, c: int)
    requires
        is_ancestor(t, a, b),
        is_ancestor(t, b, c),
    ensures
        is_ancestor(t, a, c),
    decreases c,
{
    if parent_idx(t, c) != b {
        lemma_ancestor_trans(t, a, b, parent_idx(t, c));
    }
}

/// The descendants of `id` as a depth-first walk meets them: each child,
/// followed at once by its own descendants.
pub open spec fn descendants(t: Slots, id: NodeId) -> Seq<NodeId>
    decreases t.len() - id.0, 1int, 0int,
{
    if live(t, id.0 as int) {
        descendants_of(t, id.0 as int, at(t, id.0 as int).children)
    } else {
        Seq::empty()
    }
}

/// The children `cs` of `parent`, each followed by its descendants.
pub open spec fn descendants_of(t: Slots, parent: int, cs: Seq<NodeId>) -> Seq<NodeId>
    decreases t.len() - parent, 0int, cs.len(),
{
    if cs.len() == 0 {
        Seq::empty()
    } else if parent < cs.last().0 < t.len() {
        descendants_of(t, parent, cs.drop_last()).push(cs.last()) + descendants(t, cs.last())
    } else {
        descendants_of(t, parent, cs.drop_last()).push(cs.last())
    }
}

/// What the walk over a list of children gathers: the children and the
/// descendants of each.
pub proof fn lemma_descendants_of_members(t: Slots, parent: int, cs: Seq<NodeId>)
    requires
        forall|k: int| 0 <= k < cs.len() ==> parent < (#[trigger] cs[k]).0 < t.len(),
    ensures
        forall|y: NodeId| #[trigger]
            descendants_of(t, parent, cs).contains(y) <==> exists|k: int|
                0 <= k < cs.len() && (#[trigger] cs[k] == y || descendants(t, cs[k]).contains(y)),
    decreases cs.len(),
{
    if cs.len() > 0 {
        let init = cs.drop_last();
        let last = cs.last();
        let d = descendants_of(t, parent, cs);
        let di = descendants_of(t, parent, init);
        let dl = descendants(t, last);
        assert(cs[cs.len() - 1] == last);
        assert(d == di.push(last) + dl);
        lemma_descendants_of_members(t, parent, init);
        assert forall|y: NodeId| #[trigger]
            d.contains(y) <==> exists|k: int|
                0 <= k < cs.len() && (#[trigger] cs[k] == y || descendants(t, cs[k]).contains(y)) by {
            if d.contains(y) {
                let m = choose|m: int| 0 <= m < d.len() && d[m] == y;
                if m < di.len() {
                    assert(di[m] == y);
                    assert(di.contains(y));
                    let k = choose|k: int|
                        0 <= k < init.len() && (#[trigger] init[k] == y || descendants(
                            t,
                            init[k],
                        ).contains(y));
                    assert(cs[k] == init[k]);
                } else if m == di.len() {
                    assert(cs[cs.len() - 1] == y);
                } else {
                    assert(dl[m - di.len() - 1] == y);
                    assert(dl.contains(y));
                    assert(descendants(t, cs[cs.len() - 1]).contains(y));
                }
            }
            if exists|k: int|
                0 <= k < cs.len() && (#[trigger] cs[k] == y || descendants(t, cs[k]).contains(y)) {
                let k = choose|k: int|
                    0 <= k < cs.len() && (#[trigger] cs[k] == y || descendants(t, cs[k]).contains(y));
                if k < init.len() {
                    assert(init[k] == cs[k]);
                    assert(di.contains(y));
                    let m = choose|m: int| 0 <= m < di.len() && di[m] == y;
                    assert(d[m] == y);
                } else if cs[k] == y {
                    assert(d[di.len() as int] == y);
                } else {
                    let m = choose|m: int| 0 <= m < dl.len() && dl[m] == y;
                    assert(d[di.len() + 1 + m] == y);
                }
            }
        }
    }
}

/// What the walk from a live node gathers: its children and the descendants of each.
pub proof fn lemma_descendants_members(t: Slots, id: int)
    requires
        wf(t),
        live(t, id),
    ensures
        forall|y: NodeId| #[trigger]
            descendants(t, NodeId(id as usize)).contains(y) <==> exists|k: int|
                0 <= k < at(t, id).children.len() && (#[trigger] at(t, id).children[k] == y
                    || descendants(t, at(t, id).children[k]).contains(y)),
        forall|k: int|
            0 <= k < at(t, id).children.len() ==> id < (#[trigger] at(t, id).children[k]).0 < t.len()
                && live(t, at(t, id).children[k].0 as int) && parent_idx(
                t,
                at(t, id).children[k].0 as int,
            ) == id,
{
    let cs = at(t, id).children;
    assert forall|k: int| 0 <= k < cs.len() implies id < (#[trigger] cs[k]).0 < t.len() && live(
        t,
        cs[k].0 as int,
    ) && parent_idx(t, cs[k].0 as int) == id by {
        crate::tree::model::lemma_child_above(t, id, k);
        assert(children_ok(t, id));
    }
    lemma_descendants_of_members(t, id, cs);
    let whole = NodeId(id as usize);
    assert(whole.0 as int == id);
    assert(descendants(t, whole) == descendants_of(t, id, cs));
    assert forall|y: NodeId| #[trigger]
        descendants(t, whole).contains(y) <==> exists|k: int|
            0 <= k < cs.len() && (#[trigger] cs[k] == y || descendants(t, cs[k]).contains(y)) by {
        assert(descendants_of(t, id, cs).contains(y) <==> exists|k: int|
            0 <= k < cs.len() && (#[trigger] cs[k] == y || descendants(t, cs[k]).contains(y)));
    }
}

/// Everything the walk gathers lies below the node it starts from.
pub proof fn lemma_descendants_sound(t: Slots, id: int, y: NodeId)
    requires
        wf(t),
        live(t, id),
        descendants(t, NodeId(id as usize)).contains(y),
    ensures
        is_ancestor(t, id, y.0 as int),
    decreases t.len() - id,
{
    lemma_descendants_members(t, id);
    let cs = at(t, id).children;
    let k = choose|k: int|
        0 <= k < cs.len() && (#[trigger] cs[k] == y || descendants(t, cs[k]).contains(y));
    let c = cs[k];
    assert(is_ancestor(t, id, c.0 as int));
    if c != y {
        assert(NodeId(c.0 as int as usize) == c);
        lemma_descendants_sound(t, c.0 as int, y);
        lemma_ancestor_trans(t, id, c.0 as int, y.0 as int);
    }
}

/// The walk gathers everything that lies below the node it starts from.
pub proof fn lemma_descendants_complete(t: Slots, id: int, j: int)
    requires
        wf(t),
        live(t, id),
        is_ancestor(t, id, j),
    ensures
        descendants(t, NodeId(id as usize)).contains(NodeId(j as usize)),
    decreases t.len() - id, j,
{
    lemma_descendants_members(t, id);
    lemma_ancestor_below(t, id, j);
    let cs = at(t, id).children;
    let p = parent_idx(t, j);
    let jn = NodeId(j as usize);
    assert(j != 0) by {
        assert(live(t, 0));
    }
    lemma_parent_live(t, j);
    if p == id {
        assert(cs.contains(jn));
        let k = choose|k: int| 0 <= k < cs.len() && cs[k] == jn;
        assert(cs[k] == jn);
    } else {
        lemma_descendants_complete(t, id, p);
        let pn = NodeId(p as usize);
        let k = choose|k: int|
            0 <= k < cs.len() && (#[trigger] cs[k] == pn || descendants(t, cs[k]).contains(pn));
        let c = cs[k];
        assert(NodeId(c.0 as int as usize) == c);
        if c != pn {
            lemma_descendants_sound(t, c.0 as int, pn);
        }
        assert(is_ancestor(t, c.0 as int, j));
        lemma_descendants_complete(t, c.0 as int, j);
        assert(descendants(t, cs[k]).contains(jn));
    }
}

/// A node and what the walk from it gathers are exactly its subtree.
pub proof fn lemma_descendants_are_subtree(t: Slots, id: int)
    requires
        wf(t),
        live(t, id),
    ensures
        forall|j: int|
            0 <= j < t.len() ==> (#[trigger] in_subtree(t, id, j) <==> j == id || descendants(
                t,
                NodeId(id as usize),
            ).contains(NodeId(j as usize))),
        forall|k: int|
            0 <= k < descendants(t, NodeId(id as usize)).len() ==> (#[trigger] descendants(
                t,
                NodeId(id as usize),
            )[k]).0 < t.len(),
{
    let d = descendants(t, NodeId(id as usize));
    assert forall|j: int| 0 <= j < t.len() implies (#[trigger] in_subtree(t, id, j) <==> j == id
        || d.contains(NodeId(j as usize))) by {
        if is_ancestor(t, id, j) {
            lemma_descendants_complete(t, id, j);
        }
        if d.contains(NodeId(j as usize)) {
            lemma_descendants_sound(t, id, NodeId(j as usize));
        }
    }
    assert forall|k: int| 0 <= k < d.len() implies (#[trigger] d[k]).0 < t.len() by {
        assert(d.contains(d[k]));
        lemma_descendants_sound(t, id, d[k]);
        lemma_ancestor_below(t, id, d[k].0 as int);
    }
}

} // verus!
