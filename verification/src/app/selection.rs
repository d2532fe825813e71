//! The multi-selection: a set of node identifiers, kept in the order in which
//! they were selected. The root is never in it.

use vstd::prelude::*;
use crate::tree::arena::DiskTree;
use crate::tree::model::{at, live, parent_idx, wf, Slots};
use crate::tree::node::NodeId;
use crate::tree::removal::{
    is_ancestor, lemma_ancestor_below, lemma_ancestor_trans, lemma_parent_live,
};

verus! {

#[derive(Debug, Clone)]
pub struct Selection {
    ids: Vec<NodeId>,
}

impl View for Selection {
    type V = Seq<NodeId>;

    closed spec fn view(&self) -> Seq<NodeId> {
        self.ids@
    }
}

/// Some selected node is a proper ancestor of node `j`.
pub open spec fn under_selected(t: Slots, sel: Seq<NodeId>, j: int) -> bool
    decreases j,
{
    if live(t, j) && 0 <= parent_idx(t, j) < j {
        sel.contains(NodeId(parent_idx(t, j) as usize)) || under_selected(t, sel, parent_idx(t, j))
    } else {
        false
    }
}

/// The selected nodes that lie under no other selected node, among the first
/// `k` of the selection and in its order.
pub open spec fn deduped(t: Slots, sel: Seq<NodeId>, k: int) -> Seq<NodeId>
    decreases k,
{
    if k <= 0 {
        Seq::empty()
    } else if under_selected(t, sel, sel[k - 1].0 as int) {
        deduped(t, sel, k - 1)
    } else {
        deduped(t, sel, k - 1).push(sel[k - 1])
    }
}

impl Selection {
    /// No identifier occurs twice, and the root does not occur.
    pub open spec fn wf(&self) -> bool {
        self@.no_duplicates() && !self@.contains(NodeId(0))
    }

    pub fn new() -> (s: Selection)
        ensures
            s@.len() == 0,
            s.wf(),
    {
        Selection { ids: Vec::new() }
    }

    pub fn len(&self) -> (n: usize)
        ensures
            n == self@.len(),
    {
        self.ids.len()
    }

    pub fn is_empty(&self) -> (b: bool)
        ensures
            b == (self@.len() == 0),
    {
        self.ids.len() == 0
    }

    /// The selected identifiers in the order of their selection.
    pub fn ids(&self) -> (r: &Vec<NodeId>)
        ensures
            r@ == self@,
    {
        &self.ids
    }

    pub fn contains(&self, id: NodeId) -> (b: bool)
        ensures
            b == self@.contains(id),
    {
        let mut k: usize = 0;
        while k < self.ids.len()
            invariant
                k <= self.ids@.len(),
                forall|i: int| 0 <= i < k ==> self.ids@[i] != id,
            decreases self.ids@.len() - k,
        {
            if self.ids[k].0 == id.0 {
                return true;
            }
            k = k + 1;
        }
        false
    }

    /// Add a node to the selection. The root is never selected: adding it does nothing.
    pub fn insert(&mut self, id: NodeId)
        requires
            old(self).wf(),
        ensures
            final(self).wf(),
            final(self)@ == if id == NodeId(0) || old(self)@.contains(id) {
                old(self)@
            } else {
                old(self)@.push(id)
            },
    {
        if id.0 != 0 && !self.contains(id) {
            self.ids.push(id);
            proof {
                let a = old(self)@;
                let b = self.ids@;
                assert forall|x: int, y: int| 0 <= x < b.len() && 0 <= y < b.len() && x != y implies b[x]
                    != b[y] by {
                    if x < a.len() && y < a.len() {
                    } else if x < a.len() {
                        assert(a.contains(a[x]));
                    } else {
                        assert(a.contains(a[y]));
                    }
                }
                assert(!b.contains(NodeId(0))) by {
                    if b.contains(NodeId(0)) {
                        let k = choose|k: int| 0 <= k < b.len() && b[k] == NodeId(0);
                        if k < a.len() {
                            assert(a.contains(a[k]));
                        }
                    }
                }
            }
        }
    }

    /// Take a node out of the selection; nothing happens where it is not in it.
    pub fn remove(&mut self, id: NodeId)
        requires
            old(self).wf(),
        ensures
            final(self).wf(),
            final(self)@ == crate::tree::removal::without(old(self)@, id),
    {
        let mut kept: Vec<NodeId> = Vec::new();
        let mut k: usize = 0;
        while k < self.ids.len()
            invariant
                k <= self.ids@.len(),
                self.ids@ == old(self)@,
                kept@ == crate::tree::removal::without(self.ids@.subrange(0, k as int), id),
            decreases self.ids@.len() - k,
        {
            let x = self.ids[k];
            let ghost next = self.ids@.subrange(0, k as int + 1);
            assert(next.drop_last() =~= self.ids@.subrange(0, k as int));
            assert(next.last() == x);
            if x.0 != id.0 {
                kept.push(x);
            }
            k = k + 1;
        }
        assert(self.ids@.subrange(0, k as int) =~= self.ids@);
        proof {
            crate::tree::removal::lemma_without(old(self)@, id);
        }
        self.ids = kept;
    }

    /// Put the node into the selection if it is not in it, else take it out.
    /// The root is left alone.
    pub fn toggle(&mut self, id: NodeId)
        requires
            old(self).wf(),
        ensures
            final(self).wf(),
            final(self)@ == if id == NodeId(0) {
                old(self)@
            } else if old(self)@.contains(id) {
                crate::tree::removal::without(old(self)@, id)
            } else {
                old(self)@.push(id)
            },
    {
        if id.0 != 0 {
            if self.contains(id) {
                self.remove(id);
            } else {
                self.insert(id);
            }
        }
    }

    pub fn clear(&mut self)
        ensures
            final(self)@.len() == 0,
            final(self).wf(),
    {
        self.ids = Vec::new();
    }

    /// Whether some selected node is a proper ancestor of `id`.
    pub fn has_selected_ancestor(&self, tree: &DiskTree, id: NodeId) -> (b: bool)
        requires
            tree.wf(),
        ensures
            b == under_selected(tree@, self@, id.0 as int),
    {
        let mut current = id;
        loop
            invariant
                tree.wf(),
                under_selected(tree@, self@, id.0 as int) == under_selected(
                    tree@,
                    self@,
                    current.0 as int,
                ),
            decreases current.0,
        {
            let parent = match tree.get(current) {
                Some(node) => node.parent,
                None => {
                    return false;
                },
            };
            proof {
                if current.0 != 0 {
                    lemma_parent_live(tree@, current.0 as int);
                } else {
                    assert(at(tree@, 0).parent is None);
                }
            }
            match parent {
                Some(pid) => {
                    if self.contains(pid) {
                        return true;
                    }
                    current = pid;
                },
                None => {
                    return false;
                },
            }
        }
    }

    /// Remove children whose ancestor is also selected: the selected nodes that
    /// lie under no other selected node, in the order of their selection.
    pub fn dedup_selected_nodes(&self, tree: &DiskTree) -> (r: Vec<NodeId>)
        requires
            tree.wf(),
        ensures
            r@ == deduped(tree@, self@, self@.len() as int),
    {
        let mut result: Vec<NodeId> = Vec::new();
        let mut k: usize = 0;
        while k < self.ids.len()
            invariant
                k <= self.ids@.len(),
                tree.wf(),
                result@ == deduped(tree@, self@, k as int),
            decreases self.ids@.len() - k,
        {
            let id = self.ids[k];
            if !self.has_selected_ancestor(tree, id) {
                result.push(id);
            }
            k = k + 1;
        }
        result
    }
}

/// Being under a selected node means that some selected node is an ancestor.
pub proof fn lemma_under_selected(t: Slots, sel: Seq<NodeId>, j: int)
    requires
        t.len() <= usize::MAX,
    ensures
        under_selected(t, sel, j) <==> exists|a: int|
            0 <= a < t.len() && sel.contains(NodeId(a as usize)) && #[trigger] is_ancestor(t, a, j),
    decreases j,
{
    if live(t, j) && 0 <= parent_idx(t, j) < j {
        let p = parent_idx(t, j);
        lemma_under_selected(t, sel, p);
        if under_selected(t, sel, j) {
            if sel.contains(NodeId(p as usize)) {
                assert(is_ancestor(t, p, j));
            } else {
                let a = choose|a: int|
                    0 <= a < t.len() && sel.contains(NodeId(a as usize)) && #[trigger] is_ancestor(
                        t,
                        a,
                        p,
                    );
                assert(is_ancestor(t, a, j));
            }
        }
        if exists|a: int|
            0 <= a < t.len() && sel.contains(NodeId(a as usize)) && #[trigger] is_ancestor(t, a, j) {
            let a = choose|a: int|
                0 <= a < t.len() && sel.contains(NodeId(a as usize)) && #[trigger] is_ancestor(t, a, j);
            if a != p {
                assert(is_ancestor(t, a, p));
            }
        }
    } else {
        assert forall|a: int| !#[trigger] is_ancestor(t, a, j) by {}
    }
}

/// What the first `k` selected nodes contribute to the deduped list.
proof fn lemma_deduped_members(t: Slots, sel: Seq<NodeId>, k: int)
    requires
        0 <= k <= sel.len(),
    ensures
        forall|x: NodeId| #[trigger]
            deduped(t, sel, k).contains(x) <==> exists|i: int|
                0 <= i < k && #[trigger] sel[i] == x && !under_selected(t, sel, x.0 as int),
    decreases k,
{
    if k > 0 {
        lemma_deduped_members(t, sel, k - 1);
        let d = deduped(t, sel, k);
        let dp = deduped(t, sel, k - 1);
        let last = sel[k - 1];
        assert forall|x: NodeId| #[trigger]
            d.contains(x) <==> exists|i: int|
                0 <= i < k && #[trigger] sel[i] == x && !under_selected(t, sel, x.0 as int) by {
            if d.contains(x) {
                let m = choose|m: int| 0 <= m < d.len() && d[m] == x;
                if !under_selected(t, sel, last.0 as int) && m == d.len() - 1 {
                    assert(sel[k - 1] == x);
                } else {
                    assert(dp[m] == x);
                    assert(dp.contains(x));
                    let i = choose|i: int|
                        0 <= i < k - 1 && #[trigger] sel[i] == x && !under_selected(t, sel, x.0 as int);
                    assert(sel[i] == x);
                }
            }
            if exists|i: int|
                0 <= i < k && #[trigger] sel[i] == x && !under_selected(t, sel, x.0 as int) {
                let i = choose|i: int|
                    0 <= i < k && #[trigger] sel[i] == x && !under_selected(t, sel, x.0 as int);
                if i == k - 1 {
                    assert(d[d.len() - 1] == x);
                } else {
                    assert(dp.contains(x));
                    let m = choose|m: int| 0 <= m < dp.len() && dp[m] == x;
                    assert(d[m] == x);
                }
            }
        }
    }
}

proof fn lemma_dedup_covers(t: Slots, sel: Seq<NodeId>, s: int)
    requires
        wf(t),
        0 <= s < t.len(),
        sel.contains(NodeId(s as usize)),
    ensures
        exists|d: int|
            0 <= d < t.len() && #[trigger] sel.contains(NodeId(d as usize)) && !under_selected(
                t,
                sel,
                d,
            ) && (d == s || is_ancestor(t, d, s)),
    decreases s,
{
    if under_selected(t, sel, s) {
        lemma_under_selected(t, sel, s);
        let a = choose|a: int|
            0 <= a < t.len() && sel.contains(NodeId(a as usize)) && #[trigger] is_ancestor(t, a, s);
        lemma_ancestor_below(t, a, s);
        lemma_dedup_covers(t, sel, a);
        let d = choose|d: int|
            0 <= d < t.len() && #[trigger] sel.contains(NodeId(d as usize)) && !under_selected(
                t,
                sel,
                d,
            ) && (d == a || is_ancestor(t, d, a));
        if d != a {
            lemma_ancestor_trans(t, d, a, s);
        }
        assert(sel.contains(NodeId(d as usize)) && !under_selected(t, sel, d) && (d == s
            || is_ancestor(t, d, s)));
    } else {
        assert(sel.contains(NodeId(s as usize)) && !under_selected(t, sel, s));
    }
}

/// The deduped selection is the largest antichain of the selection. It is part
/// of the selection; none of its nodes is an ancestor of another; and every
/// selected node is in it or has an ancestor in it.
pub proof fn lemma_dedup_antichain(t: Slots, sel: Seq<NodeId>)
    requires
        wf(t),
    ensures
        forall|x: NodeId| #[trigger] deduped(t, sel, sel.len() as int).contains(x) ==> sel.contains(x),
        forall|x: NodeId, y: NodeId|
            deduped(t, sel, sel.len() as int).contains(x) && deduped(
                t,
                sel,
                sel.len() as int,
            ).contains(y) ==> !#[trigger] is_ancestor(t, x.0 as int, y.0 as int),
        forall|s: NodeId| #[trigger]
            sel.contains(s) ==> exists|d: NodeId| #[trigger]
                deduped(t, sel, sel.len() as int).contains(d) && (d == s || is_ancestor(
                    t,
                    d.0 as int,
                    s.0 as int,
                )),
{
    let n = sel.len() as int;
    let dd = deduped(t, sel, n);
    lemma_deduped_members(t, sel, n);
    assert forall|x: NodeId| #[trigger] dd.contains(x) implies sel.contains(x) by {
        let i = choose|i: int|
            0 <= i < n && #[trigger] sel[i] == x && !under_selected(t, sel, x.0 as int);
        assert(sel[i] == x);
    }
    assert forall|x: NodeId, y: NodeId| dd.contains(x) && dd.contains(y) implies !#[trigger] is_ancestor(
        t,
        x.0 as int,
        y.0 as int,
    ) by {
        if is_ancestor(t, x.0 as int, y.0 as int) {
            lemma_ancestor_below(t, x.0 as int, y.0 as int);
            lemma_under_selected(t, sel, y.0 as int);
            assert(sel.contains(x));
            assert(NodeId(x.0 as int as usize) == x);
            let i = choose|i: int|
                0 <= i < n && #[trigger] sel[i] == y && !under_selected(t, sel, y.0 as int);
            assert(false);
        }
    }
    assert forall|s: NodeId| #[trigger] sel.contains(s) implies exists|d: NodeId| #[trigger]
        dd.contains(d) && (d == s || is_ancestor(t, d.0 as int, s.0 as int)) by {
        let i = choose|i: int| 0 <= i < n && sel[i] == s;
        if s.0 < t.len() {
            assert(NodeId(s.0 as int as usize) == s);
            lemma_dedup_covers(t, sel, s.0 as int);
            let d = choose|d: int|
                0 <= d < t.len() && #[trigger] sel.contains(NodeId(d as usize)) && !under_selected(
                    t,
                    sel,
                    d,
                ) && (d == s.0 || is_ancestor(t, d, s.0 as int));
            let dn = NodeId(d as usize);
            let m = choose|m: int| 0 <= m < n && sel[m] == dn;
            assert(sel[m] == dn && !under_selected(t, sel, dn.0 as int));
            assert(dd.contains(dn));
            assert(d == s.0 ==> dn == s);
        } else {
            assert(!live(t, s.0 as int));
            assert(!under_selected(t, sel, s.0 as int));
            assert(sel[i] == s);
            assert(dd.contains(s));
        }
    }
}

} // verus!
