//! The branch drawing in front of each line of the tree view.

use vstd::prelude::*;
use vstd::string::StringExecFns;
use crate::tree::arena::DiskTree;
use crate::tree::model::{at, live, parent_idx, Slots};
use crate::tree::node::NodeId;
use crate::tree::walks::path_to;

verus! {

/// Continues a branch that has further siblings below.
pub const PIPE: &'static str = "│  ";

/// A node with further siblings below.
pub const TEE: &'static str = "├─ ";

/// The last node of its parent.
pub const CORNER: &'static str = "└─ ";

/// Under a branch that has ended.
pub const BLANK: &'static str = "   ";

/// Node `id` closes the list of its parent's children. A node without a live
/// parent counts as last.
pub open spec fn last_sibling(t: Slots, id: NodeId) -> bool {
    if live(t, id.0 as int) && at(t, id.0 as int).parent is Some && live(t, parent_idx(t, id.0 as int)) {
        let cs = at(t, parent_idx(t, id.0 as int)).children;
        cs.len() > 0 && cs.last() == id
    } else {
        true
    }
}

/// The depth of the view root; 0 where it is absent.
pub open spec fn base_depth(t: Slots, view_root: NodeId) -> u16 {
    if live(t, view_root.0 as int) {
        at(t, view_root.0 as int).depth
    } else {
        0
    }
}

/// The piece that node `x` of the chain contributes: a corner or a tee for the
/// node the line is for, a blank or a pipe for an ancestor of a node more than
/// one level below the view root, nothing for an ancestor at or above the root.
pub open spec fn piece(t: Slots, base: u16, x: NodeId, is_self: bool, deep: bool) -> Seq<char> {
    if !(live(t, x.0 as int) && at(t, x.0 as int).depth > base) {
        Seq::empty()
    } else if is_self {
        if last_sibling(t, x) {
            CORNER@
        } else {
            TEE@
        }
    } else if deep {
        if last_sibling(t, x) {
            BLANK@
        } else {
            PIPE@
        }
    } else {
        Seq::empty()
    }
}

/// The pieces of the first `k` nodes of `chain`, whose last node is the one the line is for.
pub open spec fn pieces(t: Slots, base: u16, chain: Seq<NodeId>, deep: bool, k: int) -> Seq<char>
    decreases k,
{
    if k <= 0 {
        Seq::empty()
    } else {
        pieces(t, base, chain, deep, k - 1) + piece(
            t,
            base,
            chain[k - 1],
            k == last_below(t, base, chain, chain.len() as int),
            deep,
        )
    }
}

/// One more than the index of the last of the first `k` nodes of `chain` that
/// lies below the view root's depth; 0 where there is none.
pub open spec fn last_below(t: Slots, base: u16, chain: Seq<NodeId>, k: int) -> int
    decreases k,
{
    if k <= 0 {
        0
    } else if live(t, chain[k - 1].0 as int) && at(t, chain[k - 1].0 as int).depth > base {
        k
    } else {
        last_below(t, base, chain, k - 1)
    }
}

/// The drawing in front of the line of node `id` in a view rooted at
/// `view_root`: empty for the view root and for an absent node.
pub open spec fn prefix_of(t: Slots, view_root: NodeId, id: NodeId) -> Seq<char> {
    if !live(t, id.0 as int) || id == view_root {
        Seq::empty()
    } else {
        let base = base_depth(t, view_root);
        pieces(
            t,
            base,
            path_to(t, id),
            at(t, id.0 as int).depth - base > 1,
            path_to(t, id).len() as int,
        )
    }
}

/// Whether a node closes the list of its parent's children.
pub fn is_last_sibling(tree: &DiskTree, id: NodeId) -> (b: bool)
    ensures
        b == last_sibling(tree@, id),
{
    let parent_id = match tree.get(id) {
        Some(node) => match node.parent {
            Some(p) => p,
            None => {
                return true;
            },
        },
        None => {
            return true;
        },
    };
    match tree.get(parent_id) {
        Some(parent) => {
            let n = parent.children.len();
            n > 0 && parent.children[n - 1].0 == id.0
        },
        None => true,
    }
}

fn is_below(tree: &DiskTree, base: u16, x: NodeId) -> (b: bool)
    ensures
        b == (live(tree@, x.0 as int) && at(tree@, x.0 as int).depth > base),
{
    match tree.get(x) {
        Some(node) => node.depth > base,
        None => false,
    }
}

/// The drawing in front of the line of one node.
pub fn tree_prefix(tree: &DiskTree, view_root: NodeId, id: NodeId) -> (s: String)
    requires
        tree.wf(),
    ensures
        s@ == prefix_of(tree@, view_root, id),
{
    let depth = match tree.get(id) {
        Some(node) => node.depth,
        None => {
            return String::new();
        },
    };
    if id.0 == view_root.0 {
        return String::new();
    }
    let base: u16 = match tree.get(view_root) {
        Some(root) => root.depth,
        None => 0,
    };
    let deep = depth > base && depth - base > 1;
    let chain = tree.path_to_node(id);
    let mut last: usize = 0;
    let mut k: usize = 0;
    while k < chain.len()
        invariant
            k <= chain@.len(),
            last <= k,
            last == last_below(tree@, base, chain@, k as int),
        decreases chain@.len() - k,
    {
        if is_below(tree, base, chain[k]) {
            last = k + 1;
        }
        k = k + 1;
    }
    let mut out = String::new();
    let mut k: usize = 0;
    while k < chain.len()
        invariant
            k <= chain@.len(),
            last == last_below(tree@, base, chain@, chain@.len() as int),
            out@ == pieces(tree@, base, chain@, deep, k as int),
        decreases chain@.len() - k,
    {
        let x = chain[k];
        if is_below(tree, base, x) {
            let closes = is_last_sibling(tree, x);
            if k + 1 == last {
                out.append(if closes { CORNER } else { TEE });
            } else if deep {
                out.append(if closes { BLANK } else { PIPE });
            }
        }
        assert(out@ =~= pieces(tree@, base, chain@, deep, k as int + 1));
        k = k + 1;
    }
    out
}

/// The drawing in front of each of the lines `nodes`.
pub fn calculate_prefixes(tree: &DiskTree, view_root: NodeId, nodes: &Vec<NodeId>) -> (r: Vec<String>)
    requires
        tree.wf(),
    ensures
        r@.len() == nodes@.len(),
        forall|k: int| 0 <= k < r@.len() ==> (#[trigger] r@[k])@ == prefix_of(tree@, view_root, nodes@[k]),
{
    let mut out: Vec<String> = Vec::new();
    let mut k: usize = 0;
    while k < nodes.len()
        invariant
            k <= nodes@.len(),
            tree.wf(),
            out@.len() == k,
            forall|i: int| 0 <= i < k ==> (#[trigger] out@[i])@ == prefix_of(tree@, view_root, nodes@[i]),
        decreases nodes@.len() - k,
    {
        out.push(tree_prefix(tree, view_root, nodes[k]));
        k = k + 1;
    }
    out
}

} // verus!
