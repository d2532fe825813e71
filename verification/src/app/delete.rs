//! Deleting: the confirmation dialogs, the optimistic removal from the tree,
//! and the book-keeping of what the background deletions report.

use vstd::prelude::*;
use vstd::string::StringExecFns;
use crate::app::cursor::last_index;
use crate::app::selection::deduped;
use crate::app::state::{
    AppMode, AppState, DeleteFailure, DeleteItem, MultiDeleteProgress, MultiDeleteResult,
    PendingDelete, SessionStats, ViewMode, ViewState,
};
use crate::text::{decimal_digits, push_decimal};
use crate::tree::model::{at, clamp64, live, Slots};
use crate::tree::node::{index_of, NodeId};
use crate::tree::removal::{removed, without};
use crate::tree::walks::visible;

verus! {

/// The identifiers among `ids` that name a live node other than the root.
pub open spec fn deletable(t: Slots, ids: Seq<NodeId>) -> Seq<NodeId>
    decreases ids.len(),
{
    if ids.len() == 0 {
        Seq::empty()
    } else if live(t, ids.last().0 as int) && ids.last() != NodeId(0) {
        deletable(t, ids.drop_last()).push(ids.last())
    } else {
        deletable(t, ids.drop_last())
    }
}

pub open spec fn item_ids(items: Seq<DeleteItem>) -> Seq<NodeId> {
    Seq::new(items.len(), |k: int| items[k].node_id)
}

/// `items` names the nodes `ids` of the tree, each with its path and size.
pub open spec fn items_of(t: Slots, ids: Seq<NodeId>, items: Seq<DeleteItem>) -> bool {
    &&& item_ids(items) == ids
    &&& forall|k: int|
        0 <= k < items.len() ==> {
            &&& live(t, (#[trigger] items[k]).node_id.0 as int)
            &&& items[k].path@ == at(t, items[k].node_id.0 as int).path
            &&& items[k].size == at(t, items[k].node_id.0 as int).size
        }
}

/// The tree after the nodes `ids` have been removed one after the other.
pub open spec fn removed_all(t: Slots, ids: Seq<NodeId>) -> Slots
    decreases ids.len(),
{
    if ids.len() == 0 {
        t
    } else {
        removed(removed_all(t, ids.drop_last()), ids.last().0 as int)
    }
}

/// Bytes freed by the successes among `results`.
pub open spec fn freed_by(results: Seq<MultiDeleteResult>) -> nat
    decreases results.len(),
{
    if results.len() == 0 {
        0
    } else {
        freed_by(results.drop_last()) + match results.last() {
            MultiDeleteResult::Success { size } => size as nat,
            MultiDeleteResult::Failure { .. } => 0nat,
        }
    }
}

/// Number of successes among `results`.
pub open spec fn successes(results: Seq<MultiDeleteResult>) -> nat
    decreases results.len(),
{
    if results.len() == 0 {
        0
    } else {
        successes(results.drop_last()) + match results.last() {
            MultiDeleteResult::Success { .. } => 1nat,
            MultiDeleteResult::Failure { .. } => 0nat,
        }
    }
}

/// The failures among `results`, in order.
pub open spec fn failures_in(results: Seq<MultiDeleteResult>) -> Seq<DeleteFailure>
    decreases results.len(),
{
    if results.len() == 0 {
        Seq::empty()
    } else {
        match results.last() {
            MultiDeleteResult::Success { .. } => failures_in(results.drop_last()),
            MultiDeleteResult::Failure { path, error } => failures_in(results.drop_last()).push(
                DeleteFailure { path, error },
            ),
        }
    }
}

/// A count as a `usize` holds it.
pub open spec fn clamp_usize(n: nat) -> usize {
    if n > usize::MAX {
        usize::MAX
    } else {
        n as usize
    }
}

/// A count as a `u32` holds it.
pub open spec fn clamp32(n: nat) -> u32 {
    if n > u32::MAX {
        u32::MAX
    } else {
        n as u32
    }
}

/// The one line shown for a batch with failures: the failure itself where there
/// is one, else their number and the first reason.
pub open spec fn failure_message(failures: Seq<DeleteFailure>) -> Seq<char> {
    if failures.len() == 1 {
        "Delete failed: "@ + failures[0].path@ + ": "@ + failures[0].error@
    } else {
        decimal_digits(failures.len()) + " deletions failed (first: "@ + failures[0].error@ + ")"@
    }
}

impl SessionStats {
    /// Count one deleted item of `size` bytes. The totals stop at the largest
    /// value they can hold.
    pub fn record_deleted(&mut self, size: u64)
        ensures
            final(self).bytes_freed == clamp64((old(self).bytes_freed + size) as nat),
            final(self).items_deleted == clamp32((old(self).items_deleted + 1) as nat),
    {
        self.bytes_freed = if self.bytes_freed > u64::MAX - size {
            u64::MAX
        } else {
            self.bytes_freed + size
        };
        self.items_deleted = if self.items_deleted == u32::MAX {
            u32::MAX
        } else {
            self.items_deleted + 1
        };
    }
}

impl MultiDeleteProgress {
    /// A batch of `total` items of which none is done.
    pub fn new(total: usize) -> (p: MultiDeleteProgress)
        ensures
            p.total == total,
            p.completed == 0,
            p.bytes_freed == 0,
            p.failures@.len() == 0,
    {
        MultiDeleteProgress { total, completed: 0, bytes_freed: 0, failures: Vec::new() }
    }

    /// Whether every item has reported.
    pub fn is_done(&self) -> (b: bool)
        ensures
            b == (self.completed >= self.total),
    {
        self.completed >= self.total
    }

    /// Book one result.
    pub fn record(&mut self, result: &MultiDeleteResult)
        ensures
            final(self).total == old(self).total,
            final(self).completed == clamp_usize((old(self).completed + 1) as nat),
            final(self).bytes_freed == clamp64(
                (old(self).bytes_freed + freed_by(seq![*result])) as nat,
            ),
            final(self).failures@ == old(self).failures@ + failures_in(seq![*result]),
    {
        proof {
            let one = seq![*result];
            assert(one.drop_last() =~= Seq::<MultiDeleteResult>::empty());
            assert(one.last() == *result);
            assert(freed_by(one.drop_last()) == 0);
            assert(failures_in(one.drop_last()) =~= Seq::<DeleteFailure>::empty());
        }
        self.completed = if self.completed == usize::MAX {
            usize::MAX
        } else {
            self.completed + 1
        };
        match result {
            MultiDeleteResult::Success { size } => {
                self.bytes_freed = if self.bytes_freed > u64::MAX - *size {
                    u64::MAX
                } else {
                    self.bytes_freed + *size
                };
                assert(final(self).failures@ =~= old(self).failures@ + failures_in(seq![*result]));
            },
            MultiDeleteResult::Failure { path, error } => {
                self.failures.push(DeleteFailure { path: path.clone(), error: error.clone() });
                assert(final(self).failures@ =~= old(self).failures@ + failures_in(seq![*result]));
            },
        }
    }

    /// The line to show for the failures of the batch; `None` where there are none.
    pub fn failure_summary(&self) -> (m: Option<String>)
        ensures
            m is Some <==> self.failures@.len() > 0,
            m is Some ==> m->0@ == failure_message(self.failures@),
    {
        if self.failures.len() == 0 {
            None
        } else if self.failures.len() == 1 {
            let mut s = String::from_str("Delete failed: ");
            s.append(self.failures[0].path.as_str());
            s.append(": ");
            s.append(self.failures[0].error.as_str());
            assert(s@ =~= failure_message(self.failures@));
            Some(s)
        } else {
            let mut s = String::new();
            push_decimal(&mut s, self.failures.len() as u64);
            s.append(" deletions failed (first: ");
            s.append(self.failures[0].error.as_str());
            s.append(")");
            assert(s@ =~= failure_message(self.failures@));
            Some(s)
        }
    }
}

impl AppState {
    /// The state once the cursor has been pulled back into a list that a delete
    /// has shortened. In the tree view the cursor and the scroll offset are held
    /// within the visible nodes; in the list views the cursor is held within the
    /// list as computed last.
    pub open spec fn adjusted(self) -> AppState {
        match self.view_mode {
            ViewMode::Tree => {
                let n = self.view_ids().len();
                AppState {
                    selected_index: if self.selected_index >= n {
                        last_index(n) as usize
                    } else {
                        self.selected_index
                    },
                    scroll_offset: if self.scroll_offset > 0 && self.scroll_offset >= n {
                        last_index(n) as usize
                    } else {
                        self.scroll_offset
                    },
                    ..self
                }
            },
            ViewMode::LargeFiles => {
                let n = self.computed_views.large_files@.len();
                AppState {
                    large_files_state: ViewState {
                        selected_index: if self.large_files_state.selected_index >= n {
                            last_index(n) as usize
                        } else {
                            self.large_files_state.selected_index
                        },
                        ..self.large_files_state
                    },
                    ..self
                }
            },
            ViewMode::BuildArtifacts => {
                let n = self.computed_views.build_artifacts@.len();
                AppState {
                    build_artifacts_state: ViewState {
                        selected_index: if self.build_artifacts_state.selected_index >= n {
                            last_index(n) as usize
                        } else {
                            self.build_artifacts_state.selected_index
                        },
                        ..self.build_artifacts_state
                    },
                    ..self
                }
            },
        }
    }

    /// Adjust selection after a node is deleted.
    pub fn adjust_selection_after_delete(&mut self)
        requires
            old(self).wf(),
        ensures
            *final(self) == old(self).adjusted(),
            final(self).wf(),
    {
        match self.view_mode {
            ViewMode::Tree => {
                let n = self.visible_nodes().len();
                let last = if n == 0 { 0 } else { n - 1 };
                if self.selected_index >= n {
                    self.selected_index = last;
                }
                if self.scroll_offset > 0 && self.scroll_offset >= n {
                    self.scroll_offset = last;
                }
            },
            ViewMode::LargeFiles => {
                let n = self.computed_views.large_files.len();
                if self.large_files_state.selected_index >= n {
                    self.large_files_state.selected_index = if n == 0 { 0 } else { n - 1 };
                }
            },
            ViewMode::BuildArtifacts => {
                let n = self.computed_views.build_artifacts.len();
                if self.build_artifacts_state.selected_index >= n {
                    self.build_artifacts_state.selected_index = if n == 0 { 0 } else { n - 1 };
                }
            },
        }
    }

    /// Cancel delete operation.
    pub fn cancel_delete(&mut self)
        ensures
            *final(self) == (AppState {
                pending_delete: None,
                mode: AppMode::Browsing,
                ..*old(self)
            }),
    {
        self.pending_delete = None;
        self.mode = AppMode::Browsing;
    }

    /// Cancel multi-delete confirmation.
    pub fn cancel_multi_delete(&mut self)
        ensures
            *final(self) == (AppState {
                pending_multi_delete: None,
                mode: AppMode::Browsing,
                ..*old(self)
            }),
    {
        self.pending_multi_delete = None;
        self.mode = AppMode::Browsing;
    }

    /// Get the path of the item pending deletion.
    pub fn pending_delete_path(&self) -> (p: Option<&str>)
        ensures
            p is Some <==> self.pending_delete is Some,
            p is Some ==> p->0@ == self.pending_delete->0.path@,
    {
        match &self.pending_delete {
            Some(pending) => Some(pending.path.as_str()),
            None => None,
        }
    }

    /// Get the size of the item pending deletion, where it is still in the tree.
    pub fn pending_delete_size(&self) -> (s: Option<u64>)
        ensures
            s is Some <==> self.pending_delete is Some && self.tree is Some && live(
                self.tree->0@,
                self.pending_delete->0.node_id.0 as int,
            ),
            s is Some ==> s->0 == at(self.tree->0@, self.pending_delete->0.node_id.0 as int).size,
    {
        match &self.pending_delete {
            Some(pending) => match &self.tree {
                Some(tree) => match tree.get(pending.node_id) {
                    Some(node) => Some(node.size),
                    None => None,
                },
                None => None,
            },
            None => None,
        }
    }

    /// The items that a multi-delete of the current selection would remove: the
    /// selected nodes that lie under no other selected node and are still live.
    pub fn multi_delete_items(&self) -> (items: Vec<DeleteItem>)
        requires
            self.wf(),
            self.tree is Some,
        ensures
            items_of(
                self.tree->0@,
                deletable(
                    self.tree->0@,
                    deduped(self.tree->0@, self.selected_nodes@, self.selected_nodes@.len() as int),
                ),
                items@,
            ),
    {
        let mut items: Vec<DeleteItem> = Vec::new();
        match &self.tree {
            Some(tree) => {
                let ids = self.selected_nodes.dedup_selected_nodes(tree);
                let mut k: usize = 0;
                assert(ids@.subrange(0, 0) =~= Seq::<NodeId>::empty());
                assert(item_ids(items@) =~= Seq::<NodeId>::empty());
                while k < ids.len()
                    invariant
                        k <= ids@.len(),
                        items_of(tree@, deletable(tree@, ids@.subrange(0, k as int)), items@),
                    decreases ids@.len() - k,
                {
                    let id = ids[k];
                    let ghost pre = ids@.subrange(0, k as int);
                    let ghost next = ids@.subrange(0, k as int + 1);
                    assert(next.drop_last() =~= pre);
                    assert(next.last() == id);
                    let ghost before = items@;
                    match tree.get(id) {
                        Some(node) => {
                            if id.0 != 0 {
                                items.push(
                                    DeleteItem { node_id: id, path: node.path.clone(), size: node.size },
                                );
                                assert(item_ids(items@) =~= item_ids(before).push(id));
                            }
                        },
                        None => {},
                    }
                    k = k + 1;
                }
                assert(ids@.subrange(0, k as int) =~= ids@);
            },
            None => {},
        }
        items
    }

    /// What asking for a multi-delete does: where the selection yields items to delete, they await
    /// confirmation.
    pub open spec fn request_multi_delete_post(pre: AppState, post: AppState) -> bool {
        &&& match pre.tree {
                Some(t) => {
                    let ids = deletable(
                        t@,
                        deduped(t@, pre.selected_nodes@, pre.selected_nodes@.len() as int),
                    );
                    if ids.len() == 0 {
                        post == pre
                    } else {
                        &&& post == (AppState {
                            pending_multi_delete: post.pending_multi_delete,
                            mode: AppMode::ConfirmMultiDelete,
                            ..pre
                        })
                        &&& post.pending_multi_delete is Some
                        &&& items_of(t@, ids, post.pending_multi_delete->0@)
                    }
                },
                None => post == pre,
            }
    }

    /// Prepare a multi-delete: where the selection yields items to delete, they
    /// await confirmation; else nothing happens.
    pub fn request_multi_delete(&mut self)
        requires
            old(self).wf(),
        ensures
            final(self).wf(),
            Self::request_multi_delete_post(*old(self), *final(self)),
    {
        if self.tree.is_none() {
            return ;
        }
        let items = self.multi_delete_items();
        if items.len() == 0 {
            return ;
        }
        self.pending_multi_delete = Some(items);
        self.mode = AppMode::ConfirmMultiDelete;
    }

    /// What asking for a delete does: nothing while a delete runs; else the selection, or failing
    /// that the node under the cursor, awaits confirmation.
    pub open spec fn request_delete_post(pre: AppState, post: AppState) -> bool {
        let id = pre.node_at(pre.cursor().selected_index);
        if pre.delete_in_flight || pre.multi_delete_progress is Some {
            post == pre
        } else if pre.selected_nodes@.len() > 0 {
            Self::request_multi_delete_post(pre, post)
        } else if id is Some && pre.tree is Some && live(pre.tree->0@, index_of(id)) {
            &&& post == (AppState {
                pending_delete: post.pending_delete,
                mode: AppMode::ConfirmDelete,
                ..pre
            })
            &&& post.pending_delete is Some
            &&& post.pending_delete->0.node_id == id->0
            &&& post.pending_delete->0.path@ == at(pre.tree->0@, index_of(id)).path
        } else {
            post == pre
        }
    }

    /// Request delete: show the confirmation dialog, for the selection where
    /// there is one, else for the node under the cursor. Nothing happens while
    /// a delete is running.
    pub fn request_delete(&mut self)
        requires
            old(self).wf(),
        ensures
            final(self).wf(),
            Self::request_delete_post(*old(self), *final(self)),
    {
        if self.delete_in_flight || self.multi_delete_progress.is_some() {
            return ;
        }
        if !self.selected_nodes.is_empty() {
            self.request_multi_delete();
            return ;
        }
        let id = match self.selected_node() {
            Some(id) => id,
            None => {
                return ;
            },
        };
        let path = match &self.tree {
            Some(tree) => match tree.get(id) {
                Some(node) => node.path.clone(),
                None => {
                    return ;
                },
            },
            None => {
                return ;
            },
        };
        self.pending_delete = Some(PendingDelete { node_id: id, path });
        self.mode = AppMode::ConfirmDelete;
    }

    /// What confirming a delete does: the pending node leaves tree and selection, and the job says
    /// what is to go on disk.
    pub open spec fn confirm_delete_post(pre: AppState, post: AppState, job: Option<DeleteItem>) -> bool {
        &&& job is Some <==> pre.pending_delete is Some
        &&& job is None ==> post == pre
        &&& job is Some ==> {
                let id = pre.pending_delete->0.node_id;
                &&& job->0.node_id == id
                &&& job->0.path == pre.pending_delete->0.path
                &&& job->0.size == if pre.tree is Some && live(pre.tree->0@, id.0 as int) {
                    at(pre.tree->0@, id.0 as int).size
                } else {
                    0
                }
                &&& post == (AppState {
                    pending_delete: None,
                    tree: post.tree,
                    tree_modified: pre.tree is Some || pre.tree_modified,
                    computed_views: post.computed_views,
                    selected_nodes: post.selected_nodes,
                    delete_in_flight: true,
                    mode: AppMode::Browsing,
                    ..pre
                }).adjusted()
                &&& post.selected_nodes@ == without(pre.selected_nodes@, id)
                &&& match pre.tree {
                    Some(t) => {
                        &&& post.tree is Some
                        &&& post.tree->0@ == removed(t@, id.0 as int)
                        &&& post.tree->0.spec_root_path() == t.spec_root_path()
                        &&& post.computed_views == (crate::views::computed::ComputedViews {
                            dirty: true,
                            ..pre.computed_views
                        })
                    },
                    None => post.tree is None && post.computed_views == pre.computed_views,
                }
            }
    }

    /// Confirm the pending delete: the node leaves the tree and the selection at
    /// once, and the returned item is what is to be deleted on disk in the
    /// background. `None`, and nothing happens, where no delete is pending.
    pub fn confirm_delete(&mut self) -> (job: Option<DeleteItem>)
        requires
            old(self).wf(),
        ensures
            final(self).wf(),
            Self::confirm_delete_post(*old(self), *final(self), job),
    {
        if self.pending_delete.is_none() {
            return None;
        }
        let pending = match self.pending_delete.take() {
            Some(p) => p,
            None => {
                return None;
            },
        };
        let id = pending.node_id;
        let mut size: u64 = 0;
        match &mut self.tree {
            Some(tree) => {
                size = match tree.get(id) {
                    Some(node) => node.size,
                    None => 0,
                };
                tree.remove_node(id);
                self.tree_modified = true;
                self.computed_views.dirty = true;
            },
            None => {},
        }
        self.selected_nodes.remove(id);
        self.delete_in_flight = true;
        self.mode = AppMode::Browsing;
        self.adjust_selection_after_delete();
        Some(DeleteItem { node_id: id, path: pending.path, size })
    }

    /// Take note of how the background delete ended. `received` is `None` while
    /// it has not reported. A success of so many bytes goes into the session
    /// statistics, a failure becomes the error message; either way browsing goes on.
    pub fn poll_delete(&mut self, received: Option<std::result::Result<u64, String>>)
        ensures
            final(self).wf() == old(self).wf(),
            !old(self).delete_in_flight || received is None ==> *final(self) == *old(self),
            old(self).delete_in_flight && received is Some ==> match received->0 {
                Ok(size) => {
                    &&& *final(self) == (AppState {
                        session_stats: final(self).session_stats,
                        delete_in_flight: false,
                        mode: AppMode::Browsing,
                        ..*old(self)
                    })
                    &&& final(self).session_stats.bytes_freed == clamp64(
                        (old(self).session_stats.bytes_freed + size) as nat,
                    )
                    &&& final(self).session_stats.items_deleted == clamp32(
                        (old(self).session_stats.items_deleted + 1) as nat,
                    )
                },
                Err(e) => *final(self) == (AppState {
                    error_message: Some(e),
                    delete_in_flight: false,
                    mode: AppMode::Browsing,
                    ..*old(self)
                }),
            },
    {
        if !self.delete_in_flight {
            return ;
        }
        match received {
            Some(result) => {
                match result {
                    Ok(size) => {
                        self.session_stats.record_deleted(size);
                    },
                    Err(e) => {
                        self.error_message = Some(e);
                    },
                }
                self.delete_in_flight = false;
                self.mode = AppMode::Browsing;
            },
            None => {},
        }
    }
}

impl AppState {
    /// Remove every item's node from the tree.
    fn remove_items(&mut self, items: &Vec<DeleteItem>)
        requires
            old(self).wf(),
            old(self).tree is Some,
        ensures
            final(self).wf(),
            *final(self) == (AppState { tree: final(self).tree, ..*old(self) }),
            final(self).tree is Some,
            final(self).tree->0@ == removed_all(old(self).tree->0@, item_ids(items@)),
            final(self).tree->0.spec_root_path() == old(self).tree->0.spec_root_path(),
    {
        match &mut self.tree {
            Some(tree) => {
                let ghost t0 = tree@;
                let mut k: usize = 0;
                assert(item_ids(items@).subrange(0, 0) =~= Seq::<NodeId>::empty());
                while k < items.len()
                    invariant
                        k <= items@.len(),
                        tree.wf(),
                        tree.spec_root_path() == old(self).tree->0.spec_root_path(),
                        tree@ == removed_all(t0, item_ids(items@).subrange(0, k as int)),
                    decreases items@.len() - k,
                {
                    let ghost pre = item_ids(items@).subrange(0, k as int);
                    let ghost next = item_ids(items@).subrange(0, k as int + 1);
                    assert(next.drop_last() =~= pre);
                    assert(next.last() == items@[k as int].node_id);
                    tree.remove_node(items[k].node_id);
                    k = k + 1;
                }
                assert(item_ids(items@).subrange(0, k as int) =~= item_ids(items@));
            },
            None => {},
        }
    }

    /// What confirming a multi-delete does: every pending item leaves the tree, the selection is
    /// dropped, and the batch is tracked.
    pub open spec fn confirm_multi_delete_post(pre: AppState, post: AppState, jobs: Vec<DeleteItem>) -> bool {
        &&& pre.pending_multi_delete is None ==> jobs@.len() == 0 && post == pre
        &&& pre.pending_multi_delete is Some ==> {
                &&& jobs == pre.pending_multi_delete->0
                &&& post == (AppState {
                    pending_multi_delete: None,
                    tree: post.tree,
                    tree_modified: pre.tree is Some || pre.tree_modified,
                    computed_views: post.computed_views,
                    selected_nodes: post.selected_nodes,
                    selecting_mode: false,
                    multi_delete_progress: post.multi_delete_progress,
                    mode: AppMode::MultiDeleting,
                    ..pre
                }).adjusted()
                &&& post.selected_nodes@.len() == 0
                &&& post.multi_delete_progress is Some
                &&& post.multi_delete_progress->0.total == jobs@.len()
                &&& post.multi_delete_progress->0.completed == 0
                &&& post.multi_delete_progress->0.bytes_freed == 0
                &&& post.multi_delete_progress->0.failures@.len() == 0
                &&& match pre.tree {
                    Some(t) => {
                        &&& post.tree is Some
                        &&& post.tree->0@ == removed_all(t@, item_ids(jobs@))
                        &&& post.tree->0.spec_root_path() == t.spec_root_path()
                        &&& post.computed_views == (crate::views::computed::ComputedViews {
                            dirty: true,
                            ..pre.computed_views
                        })
                    },
                    None => post.tree is None && post.computed_views == pre.computed_views,
                }
            }
    }

    /// Confirm the pending multi-delete: every item's node leaves the tree at
    /// once, the selection is dropped, and the progress of the batch is tracked
    /// from now on. The returned items are what is to be deleted on disk, each in
    /// the background. Nothing happens, and nothing is returned, where no
    /// multi-delete is pending.
    pub fn confirm_multi_delete(&mut self) -> (jobs: Vec<DeleteItem>)
        requires
            old(self).wf(),
        ensures
            final(self).wf(),
            Self::confirm_multi_delete_post(*old(self), *final(self), jobs),
    {
        if self.pending_multi_delete.is_none() {
            return Vec::new();
        }
        let items = match self.pending_multi_delete.take() {
            Some(items) => items,
            None => {
                return Vec::new();
            },
        };
        let total = items.len();
        if self.tree.is_some() {
            self.remove_items(&items);
            self.tree_modified = true;
            self.computed_views.dirty = true;
        }
        self.selected_nodes.clear();
        self.selecting_mode = false;
        self.multi_delete_progress = Some(MultiDeleteProgress::new(total));
        self.mode = AppMode::MultiDeleting;
        self.adjust_selection_after_delete();
        items
    }

    /// Book the results that the background deletions have reported since the
    /// last call, in the order in which they came. Every result counts as
    /// completed; a success adds its bytes to the batch and to the session
    /// statistics. Once all items of the batch have reported, its failures are
    /// put into one error message and browsing goes on.
    pub fn poll_multi_delete(&mut self, results: &Vec<MultiDeleteResult>)
        ensures
            final(self).wf() == old(self).wf(),
            old(self).multi_delete_progress is None ==> *final(self) == *old(self),
            old(self).multi_delete_progress is Some ==> {
                let before = old(self).multi_delete_progress->0;
                let completed = clamp_usize((before.completed + results@.len()) as nat);
                let failures = before.failures@ + failures_in(results@);
                &&& final(self).session_stats.bytes_freed == clamp64(
                    (old(self).session_stats.bytes_freed + freed_by(results@)) as nat,
                )
                &&& final(self).session_stats.items_deleted == clamp32(
                    (old(self).session_stats.items_deleted + successes(results@)) as nat,
                )
                &&& if completed >= before.total {
                    &&& *final(self) == (AppState {
                        session_stats: final(self).session_stats,
                        multi_delete_progress: None,
                        mode: AppMode::Browsing,
                        error_message: final(self).error_message,
                        ..*old(self)
                    })
                    &&& if failures.len() > 0 {
                        final(self).error_message is Some && final(self).error_message->0@
                            == failure_message(failures)
                    } else {
                        final(self).error_message == old(self).error_message
                    }
                } else {
                    &&& *final(self) == (AppState {
                        session_stats: final(self).session_stats,
                        multi_delete_progress: final(self).multi_delete_progress,
                        ..*old(self)
                    })
                    &&& final(self).multi_delete_progress is Some
                    &&& final(self).multi_delete_progress->0.total == before.total
                    &&& final(self).multi_delete_progress->0.completed == completed
                    &&& final(self).multi_delete_progress->0.bytes_freed == clamp64(
                        (before.bytes_freed + freed_by(results@)) as nat,
                    )
                    &&& final(self).multi_delete_progress->0.failures@ == failures
                }
            },
    {
        if self.multi_delete_progress.is_none() {
            return ;
        }
        let mut progress = match self.multi_delete_progress.take() {
            Some(p) => p,
            None => {
                return ;
            },
        };
        let ghost before = progress;
        let ghost stats0 = self.session_stats;
        let mut k: usize = 0;
        proof {
            assert(results@.subrange(0, 0) =~= Seq::<MultiDeleteResult>::empty());
            assert(progress.failures@ =~= before.failures@ + failures_in(results@.subrange(0, 0)));
        }
        while k < results.len()
            invariant
                k <= results@.len(),
                *self == (AppState {
                    session_stats: self.session_stats,
                    multi_delete_progress: None,
                    ..*old(self)
                }),
                progress.total == before.total,
                progress.completed == clamp_usize((before.completed + k) as nat),
                progress.bytes_freed == clamp64(
                    (before.bytes_freed + freed_by(results@.subrange(0, k as int))) as nat,
                ),
                progress.failures@ == before.failures@ + failures_in(results@.subrange(0, k as int)),
                self.session_stats.bytes_freed == clamp64(
                    (stats0.bytes_freed + freed_by(results@.subrange(0, k as int))) as nat,
                ),
                self.session_stats.items_deleted == clamp32(
                    (stats0.items_deleted + successes(results@.subrange(0, k as int))) as nat,
                ),
            decreases results@.len() - k,
        {
            let ghost pre = results@.subrange(0, k as int);
            let ghost next = results@.subrange(0, k as int + 1);
            proof {
                assert(next.drop_last() =~= pre);
                assert(next.last() == results@[k as int]);
                let one = seq![results@[k as int]];
                assert(one.drop_last() =~= Seq::<MultiDeleteResult>::empty());
                assert(one.last() == results@[k as int]);
                assert(freed_by(one.drop_last()) == 0);
                assert(failures_in(one.drop_last()) =~= Seq::<DeleteFailure>::empty());
            }
            progress.record(&results[k]);
            match &results[k] {
                MultiDeleteResult::Success { size } => {
                    self.session_stats.record_deleted(*size);
                },
                MultiDeleteResult::Failure { .. } => {},
            }
            proof {
                assert(progress.failures@ =~= before.failures@ + failures_in(next));
            }
            k = k + 1;
        }
        assert(results@.subrange(0, k as int) =~= results@);
        if progress.is_done() {
            match progress.failure_summary() {
                Some(message) => {
                    self.error_message = Some(message);
                },
                None => {},
            }
            self.mode = AppMode::Browsing;
        } else {
            self.multi_delete_progress = Some(progress);
        }
    }
}

} // verus!
