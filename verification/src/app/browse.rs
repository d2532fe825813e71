//! Browsing: expanding and collapsing, drilling down, switching views, and
//! building up the multi-selection.

use vstd::prelude::*;
use crate::app::cursor::{capped_sum, ensure_visible_for, floored_diff, last_index, scrolled};
use crate::app::state::{AppMode, AppState, ViewMode, ViewState};
use crate::tree::arena::DiskTree;
use crate::tree::model::{at, live, with_expanded};
use crate::tree::node::{index_of, NodeId, NodeKind, Timestamp};
use crate::tree::removal::without;
use crate::tree::walks::visible;
use crate::views::computed::{artifacts_view, large_files_view};

verus! {

/// The first index from `k` on at which `ids` holds `x`, or -1.
pub open spec fn find_from(ids: Seq<NodeId>, x: NodeId, k: int) -> int
    decreases ids.len() - k,
{
    if k < 0 || k >= ids.len() {
        -1
    } else if ids[k] == x {
        k
    } else {
        find_from(ids, x, k + 1)
    }
}

/// The selection after `id` has been added: the root is never added, and a
/// selected node is not added again.
pub open spec fn selected_with(sel: Seq<NodeId>, id: NodeId) -> Seq<NodeId> {
    if id == NodeId(0) || sel.contains(id) {
        sel
    } else {
        sel.push(id)
    }
}

/// The selection after the nodes at the indices `lo` to `hi` of `ids`, both
/// included, have been added in that order; an index beyond the list adds nothing.
pub open spec fn selected_with_range(sel: Seq<NodeId>, ids: Seq<NodeId>, lo: int, hi: int) -> Seq<NodeId>
    decreases hi - lo + 1,
{
    if hi < lo {
        sel
    } else if 0 <= hi < ids.len() {
        selected_with(selected_with_range(sel, ids, lo, hi - 1), ids[hi])
    } else {
        selected_with_range(sel, ids, lo, hi - 1)
    }
}

/// An index held within a list of `count` items.
pub open spec fn clamped(index: usize, count: nat) -> usize {
    if index >= count {
        last_index(count) as usize
    } else {
        index
    }
}

fn position(ids: &Vec<NodeId>, x: NodeId) -> (r: Option<usize>)
    ensures
        match r {
            Some(i) => i == find_from(ids@, x, 0),
            None => find_from(ids@, x, 0) == -1,
        },
{
    let mut k: usize = 0;
    while k < ids.len()
        invariant
            k <= ids@.len(),
            find_from(ids@, x, 0) == find_from(ids@, x, k as int),
        decreases ids@.len() - k,
    {
        if ids[k].0 == x.0 {
            return Some(k);
        }
        k = k + 1;
    }
    None
}

impl AppState {
    /// Set the tree after scanning completes, or from the cache: the views are
    /// computed, and browsing begins at the root.
    pub fn set_tree(&mut self, tree: DiskTree, now: Timestamp)
        requires
            old(self).wf(),
            tree.wf(),
        ensures
            final(self).wf(),
            *final(self) == (AppState {
                computed_views: final(self).computed_views,
                tree: Some(tree),
                mode: AppMode::Browsing,
                selected_index: 0,
                view_root: NodeId(0),
                ..*old(self)
            }),
            large_files_view(tree@, tree.spec_root_path(), final(self).computed_views.large_files@),
            artifacts_view(
                tree@,
                tree.spec_root_path(),
                old(self).computed_views.stale_threshold,
                now,
                final(self).computed_views.build_artifacts@,
            ),
            !final(self).computed_views.dirty,
            final(self).computed_views.stale_threshold == old(self).computed_views.stale_threshold,
    {
        self.computed_views.rebuild(&tree, now);
        self.tree = Some(tree);
        self.mode = AppMode::Browsing;
        self.selected_index = 0;
        self.view_root = NodeId(0);
    }

    /// Set the expansion flag of the selected node.
    fn set_selected_expanded(&mut self, id: NodeId, expanded: bool)
        requires
            old(self).wf(),
        ensures
            final(self).wf(),
            *final(self) == (AppState { tree: final(self).tree, ..*old(self) }),
            match old(self).tree {
                Some(t) => final(self).tree is Some && final(self).tree->0@ == with_expanded(
                    t@,
                    id.0 as int,
                    expanded,
                ) && final(self).tree->0.spec_root_path() == t.spec_root_path(),
                None => final(self).tree is None,
            },
    {
        match &mut self.tree {
            Some(tree) => {
                tree.set_expanded(id, expanded);
            },
            None => {},
        }
    }

    /// What toggling the node under the cursor does: the tree changes in that node's expansion
    /// flag, where there is such a node.
    pub open spec fn toggle_selected_post(pre: AppState, post: AppState) -> bool {
        &&& post == (AppState { tree: post.tree, ..pre })
        &&& match (pre.node_at(pre.cursor().selected_index), pre.tree) {
            (Some(id), Some(t)) => {
                &&& post.tree is Some
                &&& post.tree->0@ == with_expanded(t@, id.0 as int, !at(t@, id.0 as int).is_expanded)
                &&& post.tree->0.spec_root_path() == t.spec_root_path()
            },
            _ => post.tree == pre.tree,
        }
    }

    /// Toggle expand/collapse for the selected node.
    pub fn toggle_selected(&mut self)
        requires
            old(self).wf(),
        ensures
            final(self).wf(),
            Self::toggle_selected_post(*old(self), *final(self)),
    {
        match self.selected_node() {
            Some(id) => match &mut self.tree {
                Some(tree) => {
                    tree.toggle_expanded(id);
                },
                None => {},
            },
            None => {},
        }
    }

    /// What expanding the node under the cursor does.
    pub open spec fn expand_selected_post(pre: AppState, post: AppState) -> bool {
        &&& post == (AppState { tree: post.tree, ..pre })
        &&& match (pre.node_at(pre.cursor().selected_index), pre.tree) {
            (Some(id), Some(t)) => {
                &&& post.tree is Some
                &&& post.tree->0@ == with_expanded(t@, id.0 as int, true)
                &&& post.tree->0.spec_root_path() == t.spec_root_path()
            },
            _ => post.tree == pre.tree,
        }
    }

    /// Expand the selected node.
    pub fn expand_selected(&mut self)
        requires
            old(self).wf(),
        ensures
            final(self).wf(),
            Self::expand_selected_post(*old(self), *final(self)),
    {
        match self.selected_node() {
            Some(id) => {
                self.set_selected_expanded(id, true);
            },
            None => {},
        }
    }

    /// What collapsing does: an expanded node is collapsed; for a collapsed one its parent is, and
    /// the cursor of the tree view follows to the parent where it is shown.
    pub open spec fn collapse_selected_post(pre: AppState, post: AppState) -> bool {
        let cursor_stays = post.selected_index == pre.selected_index && post.scroll_offset
            == pre.scroll_offset;
        &&& post == (AppState {
            tree: post.tree,
            selected_index: post.selected_index,
            scroll_offset: post.scroll_offset,
            ..pre
        })
        &&& match (pre.node_at(pre.cursor().selected_index), pre.tree) {
            (Some(id), Some(t)) => {
                &&& post.tree is Some
                &&& post.tree->0.spec_root_path() == t.spec_root_path()
                &&& if !live(t@, id.0 as int) {
                    post.tree->0@ == t@ && cursor_stays
                } else if at(t@, id.0 as int).is_expanded {
                    post.tree->0@ == with_expanded(t@, id.0 as int, false) && cursor_stays
                } else if at(t@, id.0 as int).parent is Some {
                    let p = at(t@, id.0 as int).parent->0;
                    let shown = visible(with_expanded(t@, p.0 as int, false), pre.view_root);
                    let found = find_from(shown, p, 0);
                    &&& post.tree->0@ == with_expanded(t@, p.0 as int, false)
                    &&& if found >= 0 {
                        &&& post.selected_index == found
                        &&& post.scroll_offset == scrolled(
                            found as usize,
                            pre.scroll_offset,
                            pre.visible_height,
                        )
                    } else {
                        cursor_stays
                    }
                } else {
                    post.tree->0@ == t@ && cursor_stays
                }
            },
            _ => post.tree == pre.tree && cursor_stays,
        }
    }

    /// Collapse the selected node. Where it is collapsed already, its parent is
    /// collapsed instead, and the cursor of the tree view goes to the parent
    /// where the parent is shown.
    pub fn collapse_selected(&mut self)
        requires
            old(self).wf(),
        ensures
            final(self).wf(),
            Self::collapse_selected_post(*old(self), *final(self)),
    {
        let id = match self.selected_node() {
            Some(id) => id,
            None => {
                return ;
            },
        };
        let (expanded, parent) = match &self.tree {
            Some(tree) => match tree.get(id) {
                Some(node) => (node.is_expanded, node.parent),
                None => {
                    return ;
                },
            },
            None => {
                return ;
            },
        };
        if expanded {
            self.set_selected_expanded(id, false);
        } else {
            match parent {
                Some(p) => {
                    self.set_selected_expanded(p, false);
                    let nodes = self.visible_nodes();
                    match position(&nodes, p) {
                        Some(idx) => {
                            self.selected_index = idx;
                            self.scroll_offset = ensure_visible_for(
                                idx,
                                self.scroll_offset,
                                self.visible_height,
                            );
                        },
                        None => {},
                    }
                },
                None => {},
            }
        }
    }

    /// Whether drilling down enters node `id`: a live directory with children.
    pub open spec fn can_enter(&self, id: Option<NodeId>) -> bool {
        &&& id is Some
        &&& self.tree is Some
        &&& live(self.tree->0@, index_of(id))
        &&& at(self.tree->0@, index_of(id)).kind == NodeKind::Directory
        &&& at(self.tree->0@, index_of(id)).children.len() > 0
    }

    /// What drilling down does: a live directory with children becomes the view root, the old root
    /// goes onto the history.
    pub open spec fn drill_down_post(pre: AppState, post: AppState) -> bool {
        &&& post == if pre.can_enter(pre.node_at(pre.cursor().selected_index)) {
                AppState {
                    history: post.history,
                    view_root: pre.node_at(pre.cursor().selected_index)->0,
                    selected_index: 0,
                    scroll_offset: 0,
                    ..pre
                }
            } else {
                pre
            }
        &&& post.history@ == if pre.can_enter(
                pre.node_at(pre.cursor().selected_index),
            ) {
                pre.history@.push(pre.view_root)
            } else {
                pre.history@
            }
    }

    /// Drill down into the selected directory: it becomes the root of the view,
    /// and the old root goes onto the history.
    pub fn drill_down(&mut self)
        requires
            old(self).wf(),
        ensures
            final(self).wf(),
            Self::drill_down_post(*old(self), *final(self)),
    {
        let id = match self.selected_node() {
            Some(id) => id,
            None => {
                return ;
            },
        };
        let enter = match &self.tree {
            Some(tree) => match tree.get(id) {
                Some(node) => node.kind.is_directory() && node.has_children(),
                None => false,
            },
            None => false,
        };
        if enter {
            self.history.push(self.view_root);
            self.view_root = id;
            self.selected_index = 0;
            self.scroll_offset = 0;
        }
    }

    /// What going back does: the view root left last is the view root again.
    pub open spec fn go_back_post(pre: AppState, post: AppState) -> bool {
        &&& post == if pre.history@.len() > 0 {
                AppState {
                    history: post.history,
                    view_root: pre.history@.last(),
                    selected_index: 0,
                    scroll_offset: 0,
                    ..pre
                }
            } else {
                pre
            }
        &&& post.history@ == if pre.history@.len() > 0 {
                pre.history@.drop_last()
            } else {
                pre.history@
            }
    }

    /// Go back to the view root that was left last.
    pub fn go_back(&mut self)
        ensures
            final(self).wf() == old(self).wf(),
            Self::go_back_post(*old(self), *final(self)),
    {
        if self.history.len() > 0 {
            match self.history.pop() {
                Some(prev) => {
                    self.view_root = prev;
                    self.selected_index = 0;
                    self.scroll_offset = 0;
                },
                None => {},
            }
        }
    }

    /// What bringing the views up to date does: nothing unless they are dirty; else they are
    /// computed from the tree, and the cursors of the list views are held within their lists.
    pub open spec fn ensure_views_computed_post(pre: AppState, post: AppState, now: Timestamp) -> bool {
        &&& !pre.computed_views.dirty ==> post == pre
        &&& pre.computed_views.dirty ==> {
                &&& post == (AppState {
                    computed_views: post.computed_views,
                    large_files_state: post.large_files_state,
                    build_artifacts_state: post.build_artifacts_state,
                    ..pre
                })
                &&& match pre.tree {
                    Some(t) => {
                        &&& large_files_view(
                            t@,
                            t.spec_root_path(),
                            post.computed_views.large_files@,
                        )
                        &&& artifacts_view(
                            t@,
                            t.spec_root_path(),
                            pre.computed_views.stale_threshold,
                            now,
                            post.computed_views.build_artifacts@,
                        )
                        &&& !post.computed_views.dirty
                        &&& post.computed_views.stale_threshold == pre.computed_views.stale_threshold
                    },
                    None => post.computed_views == pre.computed_views,
                }
                &&& post.large_files_state == (ViewState {
                    selected_index: clamped(
                        pre.large_files_state.selected_index,
                        post.computed_views.large_files@.len(),
                    ),
                    ..pre.large_files_state
                })
                &&& post.build_artifacts_state == (ViewState {
                    selected_index: clamped(
                        pre.build_artifacts_state.selected_index,
                        post.computed_views.build_artifacts@.len(),
                    ),
                    ..pre.build_artifacts_state
                })
            }
    }

    /// Ensure the computed views are up to date. Where they are marked dirty they
    /// are computed anew from the tree, if there is one, and the cursors of the
    /// two list views are held within their lists.
    pub fn ensure_views_computed(&mut self, now: Timestamp)
        requires
            old(self).wf(),
        ensures
            final(self).wf(),
            Self::ensure_views_computed_post(*old(self), *final(self), now),
    {
        if self.computed_views.dirty {
            match &self.tree {
                Some(tree) => {
                    self.computed_views.rebuild(tree, now);
                },
                None => {},
            }
            let lf_count = self.computed_views.large_files.len();
            if self.large_files_state.selected_index >= lf_count {
                self.large_files_state.selected_index = if lf_count == 0 { 0 } else { lf_count - 1 };
            }
            let ba_count = self.computed_views.build_artifacts.len();
            if self.build_artifacts_state.selected_index >= ba_count {
                self.build_artifacts_state.selected_index = if ba_count == 0 {
                    0
                } else {
                    ba_count - 1
                };
            }
        }
    }

    /// What showing another view does: the selection is dropped, and the views are
    /// brought up to date.
    pub open spec fn switch_view_post(pre: AppState, post: AppState, view: ViewMode, now: Timestamp) -> bool {
        &&& post.selected_nodes@.len() == 0
        &&& Self::ensure_views_computed_post(
            AppState {
                view_mode: view,
                selected_nodes: post.selected_nodes,
                selecting_mode: false,
                ..pre
            },
            post,
            now,
        )
    }

    /// The view that follows: tree, large files, build artifacts, and round again.
    pub open spec fn view_after(view: ViewMode) -> ViewMode {
        match view {
            ViewMode::Tree => ViewMode::LargeFiles,
            ViewMode::LargeFiles => ViewMode::BuildArtifacts,
            ViewMode::BuildArtifacts => ViewMode::Tree,
        }
    }

    /// The view that precedes.
    pub open spec fn view_before(view: ViewMode) -> ViewMode {
        match view {
            ViewMode::Tree => ViewMode::BuildArtifacts,
            ViewMode::LargeFiles => ViewMode::Tree,
            ViewMode::BuildArtifacts => ViewMode::LargeFiles,
        }
    }

    /// Show `view`: the selection is dropped, and the views are brought up to date.
    fn switch_view(&mut self, view: ViewMode, now: Timestamp)
        requires
            old(self).wf(),
        ensures
            final(self).wf(),
            Self::switch_view_post(*old(self), *final(self), view, now),
    {
        self.view_mode = view;
        self.selected_nodes.clear();
        self.selecting_mode = false;
        self.ensure_views_computed(now);
    }

    /// Switch to the next view: tree, large files, build artifacts, and round again.
    pub fn next_view(&mut self, now: Timestamp)
        requires
            old(self).wf(),
        ensures
            final(self).wf(),
            Self::switch_view_post(*old(self), *final(self), Self::view_after(old(self).view_mode), now),
    {
        let view = match self.view_mode {
            ViewMode::Tree => ViewMode::LargeFiles,
            ViewMode::LargeFiles => ViewMode::BuildArtifacts,
            ViewMode::BuildArtifacts => ViewMode::Tree,
        };
        self.switch_view(view, now);
    }

    /// Switch to the previous view.
    pub fn prev_view(&mut self, now: Timestamp)
        requires
            old(self).wf(),
        ensures
            final(self).wf(),
            Self::switch_view_post(*old(self), *final(self), Self::view_before(old(self).view_mode), now),
    {
        let view = match self.view_mode {
            ViewMode::Tree => ViewMode::BuildArtifacts,
            ViewMode::LargeFiles => ViewMode::Tree,
            ViewMode::BuildArtifacts => ViewMode::LargeFiles,
        };
        self.switch_view(view, now);
    }

    /// What cycling the threshold does: only the views change, to the next threshold.
    pub open spec fn cycle_stale_threshold_post(pre: AppState, post: AppState, now: Timestamp) -> bool {
        &&& post == (AppState { computed_views: post.computed_views, ..pre })
        &&& post.computed_views.stale_threshold == pre.computed_views.stale_threshold.spec_next()
    }

    /// Move to the next staleness threshold; the stale flags follow.
    pub fn cycle_stale_threshold(&mut self, now: Timestamp)
        ensures
            final(self).wf() == old(self).wf(),
            Self::cycle_stale_threshold_post(*old(self), *final(self), now),
    {
        self.computed_views.cycle_stale_threshold(now);
    }

    /// What adding to the selection does.
    pub open spec fn add_to_selection_post(pre: AppState, post: AppState, node_id: NodeId) -> bool {
        &&& post == (AppState { selected_nodes: post.selected_nodes, ..pre })
        &&& post.selected_nodes@ == selected_with(pre.selected_nodes@, node_id)
    }

    /// Add a node to the multi-selection. The root is never selected.
    pub fn add_to_selection(&mut self, node_id: NodeId)
        requires
            old(self).wf(),
        ensures
            final(self).wf(),
            Self::add_to_selection_post(*old(self), *final(self), node_id),
    {
        self.selected_nodes.insert(node_id);
    }

    /// What toggling the selection of the node under the cursor does.
    pub open spec fn toggle_select_post(pre: AppState, post: AppState) -> bool {
        let unchanged = post.selected_nodes@ == pre.selected_nodes@ && post.selecting_mode
            == pre.selecting_mode;
        &&& post == (AppState {
            selected_nodes: post.selected_nodes,
            selecting_mode: post.selecting_mode,
            ..pre
        })
        &&& match pre.node_at(pre.cursor().selected_index) {
            Some(id) => if id == NodeId(0) {
                unchanged
            } else if pre.selected_nodes@.contains(id) {
                &&& post.selected_nodes@ == without(pre.selected_nodes@, id)
                &&& post.selecting_mode == (pre.selecting_mode && post.selected_nodes@.len() > 0)
            } else {
                post.selected_nodes@ == pre.selected_nodes@.push(id) && post.selecting_mode
            },
            None => unchanged,
        }
    }

    /// Toggle the item under the cursor in or out of the selection. Selecting
    /// enters selecting mode; taking the last node out leaves it.
    pub fn toggle_select(&mut self)
        requires
            old(self).wf(),
        ensures
            final(self).wf(),
            Self::toggle_select_post(*old(self), *final(self)),
    {
        match self.selected_node() {
            Some(id) => {
                if id.0 == 0 {
                    return ;
                }
                if self.selected_nodes.contains(id) {
                    self.selected_nodes.remove(id);
                    if self.selected_nodes.is_empty() {
                        self.selecting_mode = false;
                    }
                } else {
                    self.selected_nodes.insert(id);
                    self.selecting_mode = true;
                }
            },
            None => {},
        }
    }

    /// What clearing the selection does.
    pub open spec fn clear_selection_post(pre: AppState, post: AppState) -> bool {
        &&& post == (AppState {
                selected_nodes: post.selected_nodes,
                selecting_mode: false,
                ..pre
            })
        &&& post.selected_nodes@.len() == 0
    }

    /// Clear the multi-selection and leave selecting mode.
    pub fn clear_selection(&mut self)
        requires
            old(self).wf(),
        ensures
            final(self).wf(),
            Self::clear_selection_post(*old(self), *final(self)),
    {
        self.selected_nodes.clear();
        self.selecting_mode = false;
    }

    /// Number of nodes in the multi-selection.
    pub fn selection_count(&self) -> (n: usize)
        ensures
            n == self.selected_nodes@.len(),
    {
        self.selected_nodes.len()
    }

    /// Add the nodes at the indices `lo` to `hi` of the current view to the selection.
    fn select_range(&mut self, lo: usize, hi: usize)
        requires
            old(self).wf(),
        ensures
            final(self).wf(),
            *final(self) == (AppState { selected_nodes: final(self).selected_nodes, ..*old(self) }),
            final(self).selected_nodes@ == selected_with_range(
                old(self).selected_nodes@,
                old(self).view_ids(),
                lo as int,
                hi as int,
            ),
    {
        let ids = self.current_ids();
        if hi < lo {
            return ;
        }
        let mut i: usize = lo;
        while i <= hi
            invariant
                lo <= i <= hi + 1,
                self.wf(),
                ids@ == old(self).view_ids(),
                *self == (AppState { selected_nodes: self.selected_nodes, ..*old(self) }),
                self.selected_nodes@ == selected_with_range(
                    old(self).selected_nodes@,
                    ids@,
                    lo as int,
                    i as int - 1,
                ),
            decreases hi + 1 - i,
        {
            if i < ids.len() {
                self.selected_nodes.insert(ids[i]);
            }
            if i == hi {
                return ;
            }
            i = i + 1;
        }
    }

    /// What extending the selection one step up does.
    pub open spec fn select_move_up_post(pre: AppState, post: AppState) -> bool {
        &&& post == (AppState {
                selected_nodes: post.selected_nodes,
                ..pre.moved_to(floored_diff(pre.cursor().selected_index, 1))
            })
        &&& post.selected_nodes@ == selected_with_range(
                selected_with_range(
                    pre.selected_nodes@,
                    pre.view_ids(),
                    pre.cursor().selected_index as int,
                    pre.cursor().selected_index as int,
                ),
                pre.view_ids(),
                post.cursor().selected_index as int,
                post.cursor().selected_index as int,
            )
    }

    /// Add the current node to the selection, move up, add the new node.
    pub fn select_move_up(&mut self)
        requires
            old(self).wf(),
        ensures
            final(self).wf(),
            Self::select_move_up_post(*old(self), *final(self)),
    {
        let start = self.current_selected_index();
        self.select_range(start, start);
        self.move_up();
        let end = self.current_selected_index();
        self.select_range(end, end);
    }

    /// What extending the selection one step down does.
    pub open spec fn select_move_down_post(pre: AppState, post: AppState) -> bool {
        &&& post == (AppState {
                selected_nodes: post.selected_nodes,
                ..pre.moved_to(
                    if pre.cursor().selected_index < last_index(pre.view_ids().len()) {
                        (pre.cursor().selected_index + 1) as usize
                    } else {
                        pre.cursor().selected_index
                    },
                )
            })
        &&& post.selected_nodes@ == selected_with_range(
                selected_with_range(
                    pre.selected_nodes@,
                    pre.view_ids(),
                    pre.cursor().selected_index as int,
                    pre.cursor().selected_index as int,
                ),
                pre.view_ids(),
                post.cursor().selected_index as int,
                post.cursor().selected_index as int,
            )
    }

    /// Add the current node to the selection, move down, add the new node.
    pub fn select_move_down(&mut self)
        requires
            old(self).wf(),
        ensures
            final(self).wf(),
            Self::select_move_down_post(*old(self), *final(self)),
    {
        let start = self.current_selected_index();
        self.select_range(start, start);
        self.move_down();
        let end = self.current_selected_index();
        self.select_range(end, end);
    }

    /// What extending the selection a page up does.
    pub open spec fn select_page_up_post(pre: AppState, post: AppState) -> bool {
        &&& post == (AppState {
                selected_nodes: post.selected_nodes,
                ..pre.moved_to(
                    floored_diff(
                        pre.cursor().selected_index,
                        floored_diff(pre.visible_height, 2),
                    ),
                )
            })
        &&& post.selected_nodes@ == selected_with_range(
                pre.selected_nodes@,
                pre.view_ids(),
                post.cursor().selected_index as int,
                pre.cursor().selected_index as int,
            )
    }

    /// Move up by a page and add every node passed, both ends included.
    pub fn select_page_up(&mut self)
        requires
            old(self).wf(),
        ensures
            final(self).wf(),
            Self::select_page_up_post(*old(self), *final(self)),
    {
        let start = self.current_selected_index();
        self.page_up();
        let end = self.current_selected_index();
        self.select_range(end, start);
    }

    /// What extending the selection a page down does.
    pub open spec fn select_page_down_post(pre: AppState, post: AppState) -> bool {
        &&& post == (AppState {
                selected_nodes: post.selected_nodes,
                ..pre.moved_to(post.cursor().selected_index)
            })
        &&& post.cursor().selected_index == if capped_sum(
                pre.cursor().selected_index,
                floored_diff(pre.visible_height, 2),
            ) < last_index(pre.view_ids().len()) {
                capped_sum(
                    pre.cursor().selected_index,
                    floored_diff(pre.visible_height, 2),
                )
            } else {
                last_index(pre.view_ids().len()) as usize
            }
        &&& post.selected_nodes@ == selected_with_range(
                pre.selected_nodes@,
                pre.view_ids(),
                pre.cursor().selected_index as int,
                post.cursor().selected_index as int,
            )
    }

    /// Move down by a page and add every node passed, both ends included.
    pub fn select_page_down(&mut self)
        requires
            old(self).wf(),
        ensures
            final(self).wf(),
            Self::select_page_down_post(*old(self), *final(self)),
    {
        let start = self.current_selected_index();
        self.page_down();
        let end = self.current_selected_index();
        self.select_range(start, end);
    }

    /// What extending the selection to the first item does.
    pub open spec fn select_to_first_post(pre: AppState, post: AppState) -> bool {
        &&& post == (AppState {
                selected_nodes: post.selected_nodes,
                ..pre.moved_to(0)
            })
        &&& post.selected_nodes@ == selected_with_range(
                pre.selected_nodes@,
                pre.view_ids(),
                0,
                pre.cursor().selected_index as int,
            )
    }

    /// Jump to the first item and add every node from it to where the cursor was.
    pub fn select_to_first(&mut self)
        requires
            old(self).wf(),
        ensures
            final(self).wf(),
            Self::select_to_first_post(*old(self), *final(self)),
    {
        let start = self.current_selected_index();
        self.go_to_first();
        self.select_range(0, start);
    }

    /// What extending the selection to the last item does.
    pub open spec fn select_to_last_post(pre: AppState, post: AppState) -> bool {
        &&& post == (AppState {
                selected_nodes: post.selected_nodes,
                ..pre.moved_to(last_index(pre.view_ids().len()) as usize)
            })
        &&& post.selected_nodes@ == selected_with_range(
                pre.selected_nodes@,
                pre.view_ids(),
                pre.cursor().selected_index as int,
                post.cursor().selected_index as int,
            )
    }

    /// Jump to the last item and add every node from where the cursor was to it.
    pub fn select_to_last(&mut self)
        requires
            old(self).wf(),
        ensures
            final(self).wf(),
            Self::select_to_last_post(*old(self), *final(self)),
    {
        let start = self.current_selected_index();
        self.go_to_last();
        let end = self.current_selected_index();
        self.select_range(start, end);
    }
}

} // verus!
