//! From an action or a scanner message to the next state, and to what is left
//! for the caller to do on the filesystem.

use vstd::prelude::*;
use crate::app::action::Action;
use crate::app::state::{AppMode, AppState, DeleteItem};
use crate::scanner::progress::ScanMessage;
use crate::tree::model::{at, live};
use crate::tree::node::{index_of, Timestamp};

verus! {

/// What the caller is to do after an action has been applied.
#[derive(Debug, Clone)]
pub enum Effect {
    /// Nothing.
    Nothing,
    /// Show this path in the file manager.
    Reveal(String),
    /// Delete this item on disk, in the background, and report with `poll_delete`.
    Delete(DeleteItem),
    /// Delete these items on disk, each in the background, and report with
    /// `poll_multi_delete`.
    DeleteBatch(Vec<DeleteItem>),
}

/// What the caller is to do after a scanner message has been taken in.
#[derive(Debug, Clone, Copy, PartialEq, Eq, Structural)]
pub enum ScanStep {
    /// Go on reading messages.
    Continue,
    /// The scan is complete: collect the tree and hand it to `set_tree`.
    CollectTree,
}

impl AppState {
    /// The path of the node under the cursor, where it is live.
    pub fn selected_path(&self) -> (p: Option<String>)
        requires
            self.wf(),
        ensures
            p is Some <==> self.node_at(self.cursor().selected_index) is Some && self.tree is Some
                && live(self.tree->0@, index_of(self.node_at(self.cursor().selected_index))),
            p is Some ==> p->0@ == at(
                self.tree->0@,
                index_of(self.node_at(self.cursor().selected_index)),
            ).path,
    {
        match self.selected_node() {
            Some(id) => match &self.tree {
                Some(tree) => match tree.get(id) {
                    Some(node) => Some(node.path.clone()),
                    None => None,
                },
                None => None,
            },
            None => None,
        }
    }

    /// The state and the effect that an action leads to.
    pub open spec fn action_applied(
        pre: AppState,
        action: Action,
        now: Timestamp,
        post: AppState,
        effect: Effect,
    ) -> bool {
        let quiet = effect is Nothing;
        match action {
            Action::MoveUp => quiet && post == pre.moved_to(pre.up_target()),
            Action::MoveDown => quiet && post == pre.moved_to(pre.down_target()),
            Action::PageUp => quiet && post == pre.moved_to(pre.page_up_target()),
            Action::PageDown => quiet && post == pre.moved_to(pre.page_down_target()),
            Action::GoToFirst => quiet && post == pre.moved_to(0),
            Action::GoToLast => quiet && post == pre.moved_to(pre.last_target()),
            Action::Expand => quiet && Self::expand_selected_post(pre, post),
            Action::Collapse => quiet && Self::collapse_selected_post(pre, post),
            Action::Toggle => quiet && Self::toggle_selected_post(pre, post),
            Action::DrillDown => quiet && Self::drill_down_post(pre, post),
            Action::GoBack => quiet && Self::go_back_post(pre, post),
            Action::ShowHelp => quiet && post == (AppState { mode: AppMode::Help, ..pre }),
            Action::HideHelp => quiet && post == (AppState { mode: AppMode::Browsing, ..pre }),
            Action::OpenInFinder => {
                let id = pre.node_at(pre.cursor().selected_index);
                &&& post == pre
                &&& if id is Some && pre.tree is Some && live(pre.tree->0@, index_of(id)) {
                    effect is Reveal && effect->Reveal_0@ == at(pre.tree->0@, index_of(id)).path
                } else {
                    quiet
                }
            },
            Action::Delete => quiet && Self::request_delete_post(pre, post),
            Action::ConfirmDelete => match effect {
                Effect::Delete(job) => Self::confirm_delete_post(pre, post, Some(job)),
                Effect::Nothing => Self::confirm_delete_post(pre, post, None),
                _ => false,
            },
            Action::CancelDelete => quiet && post == (AppState {
                pending_delete: None,
                mode: AppMode::Browsing,
                ..pre
            }),
            Action::Quit => quiet && post == (AppState { should_quit: true, ..pre }),
            Action::NextView => quiet && Self::switch_view_post(
                pre,
                post,
                Self::view_after(pre.view_mode),
                now,
            ),
            Action::PrevView => quiet && Self::switch_view_post(
                pre,
                post,
                Self::view_before(pre.view_mode),
                now,
            ),
            Action::CycleStaleThreshold => quiet && Self::cycle_stale_threshold_post(pre, post, now),
            Action::SelectUp => quiet && Self::select_move_up_post(pre, post),
            Action::SelectDown => quiet && Self::select_move_down_post(pre, post),
            Action::SelectPageUp => quiet && Self::select_page_up_post(pre, post),
            Action::SelectPageDown => quiet && Self::select_page_down_post(pre, post),
            Action::SelectToFirst => quiet && Self::select_to_first_post(pre, post),
            Action::SelectToLast => quiet && Self::select_to_last_post(pre, post),
            Action::ToggleSelect => quiet && Self::toggle_select_post(pre, post),
            Action::ClearSelection => quiet && Self::clear_selection_post(pre, post),
            Action::ConfirmMultiDelete => if pre.pending_multi_delete is Some {
                effect is DeleteBatch && Self::confirm_multi_delete_post(
                    pre,
                    post,
                    effect->DeleteBatch_0,
                )
            } else {
                quiet && post == pre
            },
            Action::CancelMultiDelete => quiet && post == (AppState {
                pending_multi_delete: None,
                mode: AppMode::Browsing,
                ..pre
            }),
            Action::Tick => quiet && post == pre,
        }
    }

    /// Apply one action to the state. Where the action asks for work on the
    /// filesystem, that work is returned: a confirmed delete returns what is to
    /// be deleted, "open" returns the path to show.
    pub fn handle_action(&mut self, action: Action, now: Timestamp) -> (effect: Effect)
        requires
            old(self).wf(),
        ensures
            final(self).wf(),
            Self::action_applied(*old(self), action, now, *final(self), effect),
    {
        match action {
            Action::MoveUp => {
                self.move_up();
                Effect::Nothing
            },
            Action::MoveDown => {
                self.move_down();
                Effect::Nothing
            },
            Action::PageUp => {
                self.page_up();
                Effect::Nothing
            },
            Action::PageDown => {
                self.page_down();
                Effect::Nothing
            },
            Action::GoToFirst => {
                self.go_to_first();
                Effect::Nothing
            },
            Action::GoToLast => {
                self.go_to_last();
                Effect::Nothing
            },
            Action::Expand => {
                self.expand_selected();
                Effect::Nothing
            },
            Action::Collapse => {
                self.collapse_selected();
                Effect::Nothing
            },
            Action::Toggle => {
                self.toggle_selected();
                Effect::Nothing
            },
            Action::DrillDown => {
                self.drill_down();
                Effect::Nothing
            },
            Action::GoBack => {
                self.go_back();
                Effect::Nothing
            },
            Action::ShowHelp => {
                self.show_help();
                Effect::Nothing
            },
            Action::HideHelp => {
                self.hide_help();
                Effect::Nothing
            },
            Action::OpenInFinder => match self.selected_path() {
                Some(path) => Effect::Reveal(path),
                None => Effect::Nothing,
            },
            Action::Delete => {
                self.request_delete();
                Effect::Nothing
            },
            Action::ConfirmDelete => match self.confirm_delete() {
                Some(job) => Effect::Delete(job),
                None => Effect::Nothing,
            },
            Action::CancelDelete => {
                self.cancel_delete();
                Effect::Nothing
            },
            Action::Quit => {
                self.quit();
                Effect::Nothing
            },
            Action::NextView => {
                self.next_view(now);
                Effect::Nothing
            },
            Action::PrevView => {
                self.prev_view(now);
                Effect::Nothing
            },
            Action::CycleStaleThreshold => {
                self.cycle_stale_threshold(now);
                Effect::Nothing
            },
            Action::SelectUp => {
                self.select_move_up();
                Effect::Nothing
            },
            Action::SelectDown => {
                self.select_move_down();
                Effect::Nothing
            },
            Action::SelectPageUp => {
                self.select_page_up();
                Effect::Nothing
            },
            Action::SelectPageDown => {
                self.select_page_down();
                Effect::Nothing
            },
            Action::SelectToFirst => {
                self.select_to_first();
                Effect::Nothing
            },
            Action::SelectToLast => {
                self.select_to_last();
                Effect::Nothing
            },
            Action::ToggleSelect => {
                self.toggle_select();
                Effect::Nothing
            },
            Action::ClearSelection => {
                self.clear_selection();
                Effect::Nothing
            },
            Action::ConfirmMultiDelete => {
                if self.pending_multi_delete.is_some() {
                    Effect::DeleteBatch(self.confirm_multi_delete())
                } else {
                    Effect::Nothing
                }
            },
            Action::CancelMultiDelete => {
                self.cancel_multi_delete();
                Effect::Nothing
            },
            Action::Tick => Effect::Nothing,
        }
    }

    /// Take in one message of the scanner: progress is noted, `Finalizing`
    /// changes the mode, `Cancelled` asks to quit, an error is shown, and
    /// `Completed` tells the caller to collect the tree.
    pub fn handle_scan_message(&mut self, message: ScanMessage) -> (step: ScanStep)
        ensures
            final(self).wf() == old(self).wf(),
            step == if message is Completed {
                ScanStep::CollectTree
            } else {
                ScanStep::Continue
            },
            *final(self) == match message {
                ScanMessage::Progress(p) => AppState { progress: p, ..*old(self) },
                ScanMessage::Finalizing => AppState { mode: AppMode::Finalizing, ..*old(self) },
                ScanMessage::Cancelled => AppState { should_quit: true, ..*old(self) },
                ScanMessage::Error(e) => AppState { error_message: Some(e), ..*old(self) },
                ScanMessage::StartedDirectory(_) => *old(self),
                ScanMessage::Completed => *old(self),
            },
    {
        match message {
            ScanMessage::Progress(progress) => {
                self.update_progress(progress);
                ScanStep::Continue
            },
            ScanMessage::Finalizing => {
                self.set_finalizing();
                ScanStep::Continue
            },
            ScanMessage::Completed => ScanStep::CollectTree,
            ScanMessage::Cancelled => {
                self.quit();
                ScanStep::Continue
            },
            ScanMessage::Error(e) => {
                self.set_error(e);
                ScanStep::Continue
            },
            ScanMessage::StartedDirectory(_) => ScanStep::Continue,
        }
    }
}

} // verus!
