//! Cursor and scroll discipline: each view keeps its own selected index and
//! scroll offset; a move clamps the index and brings it into the window.

use vstd::prelude::*;
use crate::app::state::{AppState, ViewMode, ViewState};
use crate::tree::node::NodeId;
use crate::tree::walks::visible;
use crate::views::computed::{artifact_ids, large_file_ids};

verus! {

/// The scroll offset that shows index `sel`, moved as little as possible from
/// `scroll`, in a window of `height` lines.
pub open spec fn scrolled(sel: usize, scroll: usize, height: usize) -> usize {
    if sel < scroll {
        sel
    } else if sel - scroll >= height {
        if sel - height + 1 > usize::MAX {
            usize::MAX
        } else {
            (sel - height + 1) as usize
        }
    } else {
        scroll
    }
}

/// The last index of a list of `count` items; 0 for an empty list.
pub open spec fn last_index(count: nat) -> nat {
    if count == 0 {
        0
    } else {
        (count - 1) as nat
    }
}

/// `a + b`, held at the largest `usize`.
pub open spec fn capped_sum(a: usize, b: usize) -> usize {
    if a + b > usize::MAX {
        usize::MAX
    } else {
        (a + b) as usize
    }
}

/// `a - b`, or 0 where `b` is the larger.
pub open spec fn floored_diff(a: usize, b: usize) -> usize {
    if a >= b {
        (a - b) as usize
    } else {
        0
    }
}

impl AppState {
    /// The identifiers listed by the current view, in display order.
    pub open spec fn view_ids(&self) -> Seq<NodeId> {
        match self.view_mode {
            ViewMode::Tree => match self.tree {
                Some(t) => visible(t@, self.view_root),
                None => Seq::empty(),
            },
            ViewMode::LargeFiles => large_file_ids(self.computed_views.large_files@),
            ViewMode::BuildArtifacts => artifact_ids(self.computed_views.build_artifacts@),
        }
    }

    /// Cursor and scroll offset of the current view.
    pub open spec fn cursor(&self) -> ViewState {
        match self.view_mode {
            ViewMode::Tree => ViewState {
                selected_index: self.selected_index,
                scroll_offset: self.scroll_offset,
            },
            ViewMode::LargeFiles => self.large_files_state,
            ViewMode::BuildArtifacts => self.build_artifacts_state,
        }
    }

    /// The state with the cursor of the current view replaced.
    pub open spec fn with_cursor(self, c: ViewState) -> AppState {
        match self.view_mode {
            ViewMode::Tree => AppState {
                selected_index: c.selected_index,
                scroll_offset: c.scroll_offset,
                ..self
            },
            ViewMode::LargeFiles => AppState { large_files_state: c, ..self },
            ViewMode::BuildArtifacts => AppState { build_artifacts_state: c, ..self },
        }
    }

    /// The state after the cursor has gone to `sel` and the window has followed.
    pub open spec fn moved_to(self, sel: usize) -> AppState {
        self.with_cursor(
            ViewState {
                selected_index: sel,
                scroll_offset: scrolled(sel, self.cursor().scroll_offset, self.visible_height),
            },
        )
    }

    /// Where one step up takes the cursor: nowhere from the first item.
    pub open spec fn up_target(&self) -> usize {
        floored_diff(self.cursor().selected_index, 1)
    }

    /// Where one step down takes the cursor: nowhere from the last item.
    pub open spec fn down_target(&self) -> usize {
        if self.cursor().selected_index < last_index(self.view_ids().len()) {
            (self.cursor().selected_index + 1) as usize
        } else {
            self.cursor().selected_index
        }
    }

    /// A page: two lines less than the window holds.
    pub open spec fn page(&self) -> usize {
        floored_diff(self.visible_height, 2)
    }

    /// Where a page up takes the cursor: at most to the first item.
    pub open spec fn page_up_target(&self) -> usize {
        floored_diff(self.cursor().selected_index, self.page())
    }

    /// Where a page down takes the cursor: at most to the last item.
    pub open spec fn page_down_target(&self) -> usize {
        if capped_sum(self.cursor().selected_index, self.page()) < last_index(self.view_ids().len()) {
            capped_sum(self.cursor().selected_index, self.page())
        } else {
            last_index(self.view_ids().len()) as usize
        }
    }

    /// The index of the last item of the current view.
    pub open spec fn last_target(&self) -> usize {
        last_index(self.view_ids().len()) as usize
    }

    /// The node under index `idx` of the current view.
    pub open spec fn node_at(&self, idx: usize) -> Option<NodeId> {
        if idx < self.view_ids().len() {
            Some(self.view_ids()[idx as int])
        } else {
            None
        }
    }

    /// Get the identifiers listed by the current view.
    pub fn current_ids(&self) -> (ids: Vec<NodeId>)
        requires
            self.wf(),
        ensures
            ids@ == self.view_ids(),
    {
        match self.view_mode {
            ViewMode::Tree => match &self.tree {
                Some(tree) => tree.visible_nodes(self.view_root),
                None => Vec::new(),
            },
            ViewMode::LargeFiles => {
                let mut ids: Vec<NodeId> = Vec::new();
                let mut k: usize = 0;
                while k < self.computed_views.large_files.len()
                    invariant
                        k <= self.computed_views.large_files@.len(),
                        ids@ == large_file_ids(self.computed_views.large_files@).subrange(0, k as int),
                    decreases self.computed_views.large_files@.len() - k,
                {
                    ids.push(self.computed_views.large_files[k].node_id);
                    assert(ids@ =~= large_file_ids(self.computed_views.large_files@).subrange(
                        0,
                        k as int + 1,
                    ));
                    k = k + 1;
                }
                assert(ids@ =~= large_file_ids(self.computed_views.large_files@));
                ids
            },
            ViewMode::BuildArtifacts => {
                let mut ids: Vec<NodeId> = Vec::new();
                let mut k: usize = 0;
                while k < self.computed_views.build_artifacts.len()
                    invariant
                        k <= self.computed_views.build_artifacts@.len(),
                        ids@ == artifact_ids(self.computed_views.build_artifacts@).subrange(
                            0,
                            k as int,
                        ),
                    decreases self.computed_views.build_artifacts@.len() - k,
                {
                    ids.push(self.computed_views.build_artifacts[k].node_id);
                    assert(ids@ =~= artifact_ids(self.computed_views.build_artifacts@).subrange(
                        0,
                        k as int + 1,
                    ));
                    k = k + 1;
                }
                assert(ids@ =~= artifact_ids(self.computed_views.build_artifacts@));
                ids
            },
        }
    }

    /// Get visible nodes in the tree view.
    pub fn visible_nodes(&self) -> (ids: Vec<NodeId>)
        requires
            self.wf(),
        ensures
            ids@ == match self.tree {
                Some(t) => visible(t@, self.view_root),
                None => Seq::empty(),
            },
    {
        match &self.tree {
            Some(tree) => tree.visible_nodes(self.view_root),
            None => Vec::new(),
        }
    }

    /// Get total item count for the current view.
    pub fn current_item_count(&self) -> (n: usize)
        requires
            self.wf(),
        ensures
            n == self.view_ids().len(),
    {
        match self.view_mode {
            ViewMode::Tree => self.visible_nodes().len(),
            ViewMode::LargeFiles => self.computed_views.large_files.len(),
            ViewMode::BuildArtifacts => self.computed_views.build_artifacts.len(),
        }
    }

    /// Get the selected index of the current view.
    pub fn current_selected_index(&self) -> (i: usize)
        ensures
            i == self.cursor().selected_index,
    {
        match self.view_mode {
            ViewMode::Tree => self.selected_index,
            ViewMode::LargeFiles => self.large_files_state.selected_index,
            ViewMode::BuildArtifacts => self.build_artifacts_state.selected_index,
        }
    }

    fn current_scroll_offset(&self) -> (i: usize)
        ensures
            i == self.cursor().scroll_offset,
    {
        match self.view_mode {
            ViewMode::Tree => self.scroll_offset,
            ViewMode::LargeFiles => self.large_files_state.scroll_offset,
            ViewMode::BuildArtifacts => self.build_artifacts_state.scroll_offset,
        }
    }

    /// Put the cursor of the current view on `sel` and bring it into the window.
    /// With a window of at least one line the cursor is then inside it.
    pub fn move_to(&mut self, sel: usize)
        ensures
            *final(self) == old(self).moved_to(sel),
            final(self).wf() == old(self).wf(),
            final(self).view_ids() == old(self).view_ids(),
            final(self).cursor().selected_index == sel,
            old(self).visible_height >= 1 ==> final(self).cursor().scroll_offset <= sel,
            old(self).visible_height >= 1 ==> sel < final(self).cursor().scroll_offset
                + old(self).visible_height,
    {
        let scroll = ensure_visible_for(sel, self.current_scroll_offset(), self.visible_height);
        match self.view_mode {
            ViewMode::Tree => {
                self.selected_index = sel;
                self.scroll_offset = scroll;
            },
            ViewMode::LargeFiles => {
                self.large_files_state = ViewState { selected_index: sel, scroll_offset: scroll };
            },
            ViewMode::BuildArtifacts => {
                self.build_artifacts_state = ViewState { selected_index: sel, scroll_offset: scroll };
            },
        }
    }

    /// Move selection up by one; stays at the first item.
    pub fn move_up(&mut self)
        ensures
            *final(self) == old(self).moved_to(old(self).up_target()),
    {
        let sel = self.current_selected_index();
        let target = if sel > 0 { sel - 1 } else { sel };
        self.move_to(target);
    }

    /// Move selection down by one; stays at the last item.
    pub fn move_down(&mut self)
        requires
            old(self).wf(),
        ensures
            *final(self) == old(self).moved_to(old(self).down_target()),
    {
        let count = self.current_item_count();
        let sel = self.current_selected_index();
        let last = if count == 0 { 0 } else { count - 1 };
        let target = if sel < last { sel + 1 } else { sel };
        self.move_to(target);
    }

    /// Move selection up by a page: two lines less than the window holds.
    pub fn page_up(&mut self)
        ensures
            *final(self) == old(self).moved_to(old(self).page_up_target()),
    {
        let page = if self.visible_height >= 2 { self.visible_height - 2 } else { 0 };
        let sel = self.current_selected_index();
        let target = if sel >= page { sel - page } else { 0 };
        self.move_to(target);
    }

    /// Move selection down by a page, at most to the last item.
    pub fn page_down(&mut self)
        requires
            old(self).wf(),
        ensures
            *final(self) == old(self).moved_to(old(self).page_down_target()),
            final(self).cursor().selected_index <= last_index(old(self).view_ids().len()),
    {
        let count = self.current_item_count();
        let page = if self.visible_height >= 2 { self.visible_height - 2 } else { 0 };
        let sel = self.current_selected_index();
        let last = if count == 0 { 0 } else { count - 1 };
        let sum = if sel > usize::MAX - page { usize::MAX } else { sel + page };
        let target = if sum < last { sum } else { last };
        self.move_to(target);
    }

    /// Go to first item.
    pub fn go_to_first(&mut self)
        ensures
            *final(self) == old(self).moved_to(0),
    {
        self.move_to(0);
    }

    /// Go to last item.
    pub fn go_to_last(&mut self)
        requires
            old(self).wf(),
        ensures
            *final(self) == old(self).moved_to(old(self).last_target()),
    {
        let count = self.current_item_count();
        let last = if count == 0 { 0 } else { count - 1 };
        self.move_to(last);
    }

    /// Get the node at a given index of the current view.
    pub fn node_at_index(&self, idx: usize) -> (r: Option<NodeId>)
        requires
            self.wf(),
        ensures
            r == self.node_at(idx),
    {
        match self.view_mode {
            ViewMode::Tree => {
                let nodes = self.visible_nodes();
                if idx < nodes.len() {
                    Some(nodes[idx])
                } else {
                    None
                }
            },
            ViewMode::LargeFiles => {
                if idx < self.computed_views.large_files.len() {
                    Some(self.computed_views.large_files[idx].node_id)
                } else {
                    None
                }
            },
            ViewMode::BuildArtifacts => {
                if idx < self.computed_views.build_artifacts.len() {
                    Some(self.computed_views.build_artifacts[idx].node_id)
                } else {
                    None
                }
            },
        }
    }

    /// Get the currently selected node, whichever view is shown.
    pub fn selected_node(&self) -> (r: Option<NodeId>)
        requires
            self.wf(),
        ensures
            r == self.node_at(self.cursor().selected_index),
    {
        self.node_at_index(self.current_selected_index())
    }
}

/// The scroll offset that brings index `selected` into a window of
/// `visible_height` lines that now begins at `scroll`.
pub fn ensure_visible_for(selected: usize, scroll: usize, visible_height: usize) -> (r: usize)
    ensures
        r == scrolled(selected, scroll, visible_height),
        visible_height >= 1 ==> r <= selected < r + visible_height,
{
    if selected < scroll {
        selected
    } else if selected - scroll >= visible_height {
        let gap = selected - visible_height;
        if gap == usize::MAX {
            usize::MAX
        } else {
            gap + 1
        }
    } else {
        scroll
    }
}

/// A move never takes the cursor out of the list: from an index within the
/// list, one step up or down, a page up or down, and a jump to either end all
/// lead to an index within the list.
pub proof fn lemma_moves_stay_in_list(sel: usize, count: nat, page: usize)
    requires
        sel <= last_index(count),
    ensures
        floored_diff(sel, 1) <= last_index(count),
        (if sel < last_index(count) { sel + 1 } else { sel as int }) <= last_index(count),
        floored_diff(sel, page) <= last_index(count),
        (if capped_sum(sel, page) < last_index(count) {
            capped_sum(sel, page) as nat
        } else {
            last_index(count)
        }) <= last_index(count),
{
}

} // verus!
