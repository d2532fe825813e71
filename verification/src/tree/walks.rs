//! Walks over the tree and the rebuilding of paths, stated over the model.

use vstd::prelude::*;
use crate::paths::path_join;
use crate::tree::model::{at, live, parent_idx, wf, with_expanded, Slots};
use crate::tree::node::{NodeId, NodeView};
use crate::tree::removal::lemma_parent_live;

verus! {

/// The nodes shown when `id` heads the display, in display order: `id` itself,
/// then, where `id` is live and expanded, what each of its children shows.
pub open spec fn visible(t: Slots, id: NodeId) -> Seq<NodeId>
    decreases t.len() - id.0, 1int, 0int,
{
    if live(t, id.0 as int) && at(t, id.0 as int).is_expanded {
        seq![id] + visible_list(t, id.0 as int, at(t, id.0 as int).children)
    } else {
        seq![id]
    }
}

/// What the children `cs` of node `parent` show, one after the other.
pub open spec fn visible_list(t: Slots, parent: int, cs: Seq<NodeId>) -> Seq<NodeId>
    decreases t.len() - parent, 0int, cs.len(),
{
    if cs.len() == 0 {
        Seq::empty()
    } else if parent < cs.last().0 < t.len() {
        visible_list(t, parent, cs.drop_last()) + visible(t, cs.last())
    } else {
        visible_list(t, parent, cs.drop_last()).push(cs.last())
    }
}

/// The chain of nodes from the root down to `id`, both included. For an absent
/// node it is `id` alone.
pub open spec fn path_to(t: Slots, id: NodeId) -> Seq<NodeId>
    decreases id.0,
{
    if live(t, id.0 as int) && 0 <= parent_idx(t, id.0 as int) < id.0 {
        path_to(t, at(t, id.0 as int).parent->0).push(id)
    } else {
        seq![id]
    }
}

/// The names of the live nodes among `ids`, in order.
pub open spec fn live_names(t: Slots, ids: Seq<NodeId>) -> Seq<Seq<char>>
    decreases ids.len(),
{
    if ids.len() == 0 {
        Seq::empty()
    } else if live(t, ids.last().0 as int) {
        live_names(t, ids.drop_last()).push(at(t, ids.last().0 as int).name)
    } else {
        live_names(t, ids.drop_last())
    }
}

/// `names` written one after the other with a `/` between neighbours.
pub open spec fn slash_joined(names: Seq<Seq<char>>) -> Seq<char>
    decreases names.len(),
{
    if names.len() == 0 {
        Seq::empty()
    } else if names.len() == 1 {
        names[0]
    } else {
        slash_joined(names.drop_last()) + seq!['/'] + names.last()
    }
}

/// The tree after every directory among `ids` has been expanded.
pub open spec fn expanded_all(t: Slots, ids: Seq<NodeId>) -> Slots
    decreases ids.len(),
{
    if ids.len() == 0 {
        t
    } else {
        with_expanded(expanded_all(t, ids.drop_last()), ids.last().0 as int, true)
    }
}

/// `b` is `a` but for the paths of its nodes.
pub open spec fn same_but_paths(a: Slots, b: Slots) -> bool {
    &&& a.len() == b.len()
    &&& forall|i: int| 0 <= i < a.len() ==> (#[trigger] a[i] is Some <==> b[i] is Some)
    &&& forall|i: int| #[trigger] live(a, i) ==> at(b, i) == NodeView { path: at(b, i).path, ..at(a, i) }
}

/// Node `i` has the path that its place in the tree gives it: the root path for
/// the root, else the parent's path with the node's name adjoined.
pub open spec fn path_ok(t: Slots, root_path: Seq<char>, i: int) -> bool {
    if i == 0 {
        at(t, 0).path == root_path
    } else {
        at(t, i).path == path_join(at(t, parent_idx(t, i)).path, at(t, i).name)
    }
}

/// Every live node has the path that its place in the tree gives it.
pub open spec fn paths_rebuilt(t: Slots, root_path: Seq<char>) -> bool {
    forall|i: int| #[trigger] live(t, i) ==> path_ok(t, root_path, i)
}

proof fn lemma_rebuilt_agree(a: Slots, b: Slots, root_path: Seq<char>, n: int)
    requires
        wf(a),
        same_but_paths(a, b),
        paths_rebuilt(a, root_path),
        paths_rebuilt(b, root_path),
        0 <= n <= a.len(),
    ensures
        forall|i: int| 0 <= i < n ==> #[trigger] a[i] == b[i],
    decreases n,
{
    if n > 0 {
        lemma_rebuilt_agree(a, b, root_path, n - 1);
        let i = n - 1;
        if live(a, i) {
            assert(live(b, i));
            assert(path_ok(a, root_path, i));
            assert(path_ok(b, root_path, i));
            if i != 0 {
                lemma_parent_live(a, i);
                let p = parent_idx(a, i);
                assert(a[p] == b[p]);
                assert(parent_idx(b, i) == p);
            }
        }
    }
}

/// Rebuilding restores stripped paths. Take a well-formed tree whose paths are
/// those its shape gives, replace the paths by anything, and rebuild them against
/// the same root path: the result is the tree one started from.
pub proof fn lemma_rebuild_restores_paths(
    intact: Slots,
    stripped: Slots,
    rebuilt: Slots,
    root_path: Seq<char>,
)
    requires
        wf(intact),
        paths_rebuilt(intact, root_path),
        same_but_paths(intact, stripped),
        same_but_paths(stripped, rebuilt),
        paths_rebuilt(rebuilt, root_path),
    ensures
        rebuilt == intact,
{
    assert(same_but_paths(intact, rebuilt)) by {
        assert forall|i: int| #[trigger] live(intact, i) implies at(rebuilt, i) == NodeView {
            path: at(rebuilt, i).path,
            ..at(intact, i)
        } by {
            assert(live(stripped, i));
        }
        assert forall|i: int| 0 <= i < intact.len() implies (#[trigger] intact[i] is Some
            <==> rebuilt[i] is Some) by {
            assert(intact[i] is Some <==> stripped[i] is Some);
        }
    }
    lemma_rebuilt_agree(intact, rebuilt, root_path, intact.len() as int);
    assert(rebuilt =~= intact);
}

/// One step of rebuilding: once node `i` has its parent's path with its name
/// adjoined, every live node up to `i` has the path its place gives it.
pub proof fn lemma_repath_step(o: Slots, before: Slots, after: Slots, root_path: Seq<char>, i: int)
    requires
        wf(o),
        wf(before),
        same_but_paths(o, before),
        live(before, i),
        i != 0,
        after == before.update(
            i,
            Some(
                NodeView {
                    path: path_join(at(before, parent_idx(before, i)).path, at(before, i).name),
                    ..at(before, i)
                },
            ),
        ),
        forall|j: int| 0 <= j < i && #[trigger] live(before, j) ==> path_ok(before, root_path, j),
    ensures
        wf(after),
        same_but_paths(o, after),
        forall|j: int| 0 <= j < i + 1 && #[trigger] live(after, j) ==> path_ok(after, root_path, j),
{
    crate::tree::model::lemma_wf_same_links(before, after);
    lemma_parent_live(before, i);
    assert forall|j: int| 0 <= j < i + 1 && #[trigger] live(after, j) implies path_ok(
        after,
        root_path,
        j,
    ) by {
        assert(live(before, j));
        if j < i {
            assert(path_ok(before, root_path, j));
            if j != 0 {
                lemma_parent_live(before, j);
            }
        }
    }
    assert forall|j: int| #[trigger] live(o, j) implies at(after, j) == NodeView {
        path: at(after, j).path,
        ..at(o, j)
    } by {
        assert(live(before, j));
    }
    assert forall|j: int| 0 <= j < o.len() implies (#[trigger] o[j] is Some <==> after[j] is Some) by {
        assert(o[j] is Some <==> before[j] is Some);
    }
}

/// A tree stays well formed whatever is done to its paths, so a tree that was
/// stored without them is taken back as a tree.
pub proof fn lemma_stripped_well_formed(intact: Slots, stripped: Slots)
    requires
        wf(intact),
        same_but_paths(intact, stripped),
    ensures
        wf(stripped),
{
    assert(crate::tree::model::same_links(intact, stripped)) by {
        assert forall|i: int| #[trigger] live(intact, i) implies {
            &&& at(intact, i).id == at(stripped, i).id
            &&& at(intact, i).parent == at(stripped, i).parent
            &&& at(intact, i).children == at(stripped, i).children
            &&& at(intact, i).depth == at(stripped, i).depth
        } by {}
    }
    crate::tree::model::lemma_wf_same_links(intact, stripped);
}

} // verus!
