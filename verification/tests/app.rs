use dux::app::cursor::ensure_visible_for;
use dux::app::keys::{handle_key, EventHandler, KeyCode, KeyPress};
use dux::app::state::PendingDelete;
use dux::app::status::progress_indicator;
use dux::app::{
    centered_rect, Action, AppMode, AppState, Area, Effect, MultiDeleteProgress,
    MultiDeleteResult, ScanStep, Selection, SessionStats, ViewMode,
};
use dux::scanner::{ScanMessage, ScanProgress};
use dux::{DiskTree, NodeId, NodeKind, Timestamp};

fn s(text: &str) -> String {
    text.to_string()
}

fn now() -> Timestamp {
    Timestamp { nanos: 1_000_000 }
}

struct Ids {
    a: NodeId,
    b: NodeId,
    c: NodeId,
    d: NodeId,
    e: NodeId,
}

fn sample_tree() -> (DiskTree, Ids) {
    let mut tree = DiskTree::new(s("/r"));
    let a = tree.add_node(s("a.txt"), NodeKind::File, s("/r/a.txt"), NodeId::root());
    tree.set_size(a, 100);
    let b = tree.add_node(s("b"), NodeKind::Directory, s("/r/b"), NodeId::root());
    let c = tree.add_node(s("c.txt"), NodeKind::File, s("/r/b/c.txt"), b);
    tree.set_size(c, 200);
    let d = tree.add_node(s("d"), NodeKind::Directory, s("/r/b/d"), b);
    let e = tree.add_node(s("e.txt"), NodeKind::File, s("/r/b/d/e.txt"), d);
    tree.set_size(e, 300);
    tree.aggregate_sizes();
    tree.sort_by_size();
    (tree, Ids { a, b, c, d, e })
}

fn browsing() -> (AppState, Ids) {
    let (tree, ids) = sample_tree();
    let mut state = AppState::new(s("/r"));
    state.set_tree(tree, now());
    (state, ids)
}

fn expanded() -> (AppState, Ids) {
    let (mut state, ids) = browsing();
    let tree = state.tree.as_mut().unwrap();
    tree.set_expanded(ids.b, true);
    tree.set_expanded(ids.d, true);
    (state, ids)
}

fn key(code: KeyCode) -> KeyPress {
    KeyPress { code, shift: false, control: false }
}

#[test]
fn the_app_starts_scanning() {
    let state = AppState::new(s("/r"));
    assert_eq!(state.mode, AppMode::Scanning);
    assert!(state.tree.is_none());
    assert_eq!(state.visible_height, 20);
    assert_eq!(state.view_mode, ViewMode::Tree);
    assert_eq!(state.view_root, NodeId::root());
    assert!(!state.should_quit);
    assert!(state.visible_nodes().is_empty());
    assert_eq!(state.selected_node(), None);
    assert_eq!(state.selection_count(), 0);
}

#[test]
fn scanner_messages_move_the_mode_along() {
    let (tree, _ids) = sample_tree();
    let mut state = AppState::new(s("/r"));
    state.set_finalizing();
    assert_eq!(state.mode, AppMode::Finalizing);
    state.set_tree(tree, now());
    assert_eq!(state.mode, AppMode::Browsing);
    assert_eq!(state.selected_index, 0);
    assert!(!state.computed_views.dirty);
    assert_eq!(state.computed_views.large_files.len(), 3);
    state.show_help();
    assert_eq!(state.mode, AppMode::Help);
    state.hide_help();
    assert_eq!(state.mode, AppMode::Browsing);
    state.quit();
    assert!(state.should_quit);
}

#[test]
fn spinner_and_error_message() {
    let mut state = AppState::new(s("/r"));
    let mut i = 0;
    while i < 12 {
        state.tick_spinner();
        i += 1;
    }
    assert_eq!(state.spinner_frame, 2);
    state.set_error(s("boom"));
    assert_eq!(state.error_message, Some(s("boom")));
    state.clear_error();
    assert_eq!(state.error_message, None);
    let mut progress = ScanProgress::new();
    progress.files_scanned = 4;
    state.update_progress(progress);
    assert_eq!(state.progress.files_scanned, 4);
}

#[test]
fn the_window_follows_the_cursor() {
    assert_eq!(ensure_visible_for(3, 5, 10), 3);
    assert_eq!(ensure_visible_for(7, 5, 10), 5);
    assert_eq!(ensure_visible_for(14, 5, 10), 5);
    assert_eq!(ensure_visible_for(15, 5, 10), 6);
    assert_eq!(ensure_visible_for(40, 0, 10), 31);
    assert_eq!(ensure_visible_for(4, 0, 1), 4);
}

#[test]
fn moves_stay_within_the_list() {
    let (mut state, ids) = expanded();
    assert_eq!(state.visible_nodes(), vec![NodeId::root(), ids.b, ids.d, ids.e, ids.c, ids.a]);
    state.move_up();
    assert_eq!(state.selected_index, 0);
    state.move_down();
    state.move_down();
    assert_eq!(state.selected_index, 2);
    assert_eq!(state.selected_node(), Some(ids.d));
    state.go_to_last();
    assert_eq!(state.selected_index, 5);
    state.move_down();
    assert_eq!(state.selected_index, 5);
    state.go_to_first();
    assert_eq!(state.selected_index, 0);
    state.visible_height = 5;
    state.page_down();
    assert_eq!(state.selected_index, 3);
    state.page_down();
    assert_eq!(state.selected_index, 5);
    assert_eq!(state.scroll_offset, 1);
    state.page_up();
    assert_eq!(state.selected_index, 2);
    state.page_up();
    assert_eq!(state.selected_index, 0);
    assert_eq!(state.scroll_offset, 0);
    assert_eq!(state.node_at_index(4), Some(ids.c));
    assert_eq!(state.node_at_index(6), None);
    assert_eq!(state.current_item_count(), 6);
}

#[test]
fn each_view_keeps_its_own_cursor() {
    let (mut state, ids) = expanded();
    state.move_down();
    state.next_view(now());
    assert_eq!(state.view_mode, ViewMode::LargeFiles);
    assert_eq!(state.current_selected_index(), 0);
    assert_eq!(state.current_item_count(), 3);
    assert_eq!(state.selected_node(), Some(ids.e));
    state.move_down();
    assert_eq!(state.large_files_state.selected_index, 1);
    assert_eq!(state.selected_index, 1);
    state.next_view(now());
    assert_eq!(state.view_mode, ViewMode::BuildArtifacts);
    assert_eq!(state.current_item_count(), 0);
    state.go_to_last();
    assert_eq!(state.build_artifacts_state.selected_index, 0);
    state.next_view(now());
    assert_eq!(state.view_mode, ViewMode::Tree);
    state.prev_view(now());
    assert_eq!(state.view_mode, ViewMode::BuildArtifacts);
    state.prev_view(now());
    assert_eq!(state.view_mode, ViewMode::LargeFiles);
    assert_eq!(state.large_files_state.selected_index, 1);
    state.prev_view(now());
    assert_eq!(state.view_mode, ViewMode::Tree);
}

#[test]
fn expanding_collapsing_and_drilling() {
    let (mut state, ids) = browsing();
    assert_eq!(state.visible_nodes(), vec![NodeId::root(), ids.b, ids.a]);
    state.move_down();
    state.expand_selected();
    assert_eq!(state.visible_nodes(), vec![NodeId::root(), ids.b, ids.d, ids.c, ids.a]);
    state.toggle_selected();
    assert_eq!(state.visible_nodes(), vec![NodeId::root(), ids.b, ids.a]);
    state.toggle_selected();
    state.move_down();
    state.move_down();
    assert_eq!(state.selected_node(), Some(ids.c));
    state.collapse_selected();
    assert_eq!(state.selected_node(), Some(ids.b));
    assert_eq!(state.visible_nodes(), vec![NodeId::root(), ids.b, ids.a]);

    state.drill_down();
    assert_eq!(state.view_root, ids.b);
    assert_eq!(state.history, vec![NodeId::root()]);
    assert_eq!(state.selected_index, 0);
    state.expand_selected();
    state.go_to_last();
    assert_eq!(state.selected_node(), Some(ids.c));
    state.drill_down();
    assert_eq!(state.view_root, ids.b);
    assert_eq!(state.history, vec![NodeId::root()]);
    state.go_back();
    assert_eq!(state.view_root, NodeId::root());
    assert!(state.history.is_empty());
    state.go_back();
    assert_eq!(state.view_root, NodeId::root());
}

#[test]
fn the_root_is_never_selected() {
    let mut selection = Selection::new();
    selection.insert(NodeId::root());
    assert!(selection.is_empty());
    selection.toggle(NodeId::root());
    assert!(selection.is_empty());
    selection.insert(NodeId(3));
    selection.insert(NodeId(3));
    selection.insert(NodeId(1));
    assert_eq!(selection.ids(), &vec![NodeId(3), NodeId(1)]);
    assert!(selection.contains(NodeId(3)));
    selection.toggle(NodeId(3));
    assert_eq!(selection.ids(), &vec![NodeId(1)]);
    selection.toggle(NodeId(2));
    assert_eq!(selection.len(), 2);
    selection.remove(NodeId(9));
    assert_eq!(selection.len(), 2);
    selection.clear();
    assert!(selection.is_empty());

    let (mut state, ids) = browsing();
    state.toggle_select();
    assert_eq!(state.selection_count(), 0);
    assert!(!state.selecting_mode);
    state.add_to_selection(NodeId::root());
    assert_eq!(state.selection_count(), 0);
    state.move_down();
    state.toggle_select();
    assert!(state.selecting_mode);
    assert!(state.selected_nodes.contains(ids.b));
    state.toggle_select();
    assert!(!state.selecting_mode);
    assert_eq!(state.selection_count(), 0);
}

#[test]
fn dedupe_keeps_the_topmost_selected_nodes() {
    let (tree, ids) = sample_tree();
    let mut selection = Selection::new();
    selection.insert(ids.e);
    selection.insert(ids.a);
    selection.insert(ids.b);
    selection.insert(ids.d);
    selection.insert(NodeId(40));
    assert_eq!(selection.dedup_selected_nodes(&tree), vec![ids.a, ids.b, NodeId(40)]);
    assert!(selection.has_selected_ancestor(&tree, ids.e));
    assert!(selection.has_selected_ancestor(&tree, ids.c));
    assert!(!selection.has_selected_ancestor(&tree, ids.b));
    assert!(!selection.has_selected_ancestor(&tree, NodeId(40)));

    let mut leaves = Selection::new();
    leaves.insert(ids.c);
    leaves.insert(ids.e);
    assert_eq!(leaves.dedup_selected_nodes(&tree), vec![ids.c, ids.e]);
}

#[test]
fn extending_the_selection_adds_every_node_passed() {
    let (mut state, ids) = expanded();
    state.move_down();
    state.select_move_down();
    assert_eq!(state.selected_nodes.ids(), &vec![ids.b, ids.d]);
    state.select_to_last();
    assert_eq!(state.selected_nodes.ids(), &vec![ids.b, ids.d, ids.e, ids.c, ids.a]);
    state.clear_selection();
    assert_eq!(state.selection_count(), 0);
    state.select_to_first();
    assert_eq!(state.selected_nodes.ids(), &vec![ids.b, ids.d, ids.e, ids.c, ids.a]);
    assert_eq!(state.selected_index, 0);
    state.clear_selection();
    state.visible_height = 4;
    state.go_to_last();
    state.select_page_up();
    assert_eq!(state.selected_index, 3);
    assert_eq!(state.selected_nodes.ids(), &vec![ids.e, ids.c, ids.a]);
    state.clear_selection();
    state.select_move_up();
    assert_eq!(state.selected_nodes.ids(), &vec![ids.e, ids.d]);
    state.clear_selection();
    state.select_page_down();
    assert_eq!(state.selected_nodes.ids(), &vec![ids.d, ids.e, ids.c]);
    state.next_view(now());
    assert_eq!(state.selection_count(), 0);
}

#[test]
fn a_single_delete_is_confirmed_and_reported() {
    let (mut state, ids) = browsing();
    state.move_down();
    state.request_delete();
    assert_eq!(state.mode, AppMode::ConfirmDelete);
    assert_eq!(state.pending_delete_path(), Some("/r/b"));
    assert_eq!(state.pending_delete_size(), Some(500));
    state.cancel_delete();
    assert_eq!(state.mode, AppMode::Browsing);
    assert!(state.pending_delete.is_none());
    assert!(state.confirm_delete().is_none());

    state.go_to_last();
    assert_eq!(state.selected_node(), Some(ids.a));
    state.request_delete();
    let job = state.confirm_delete().unwrap();
    assert_eq!(job.node_id, ids.a);
    assert_eq!(job.path, "/r/a.txt");
    assert_eq!(job.size, 100);
    assert_eq!(state.mode, AppMode::Browsing);
    assert!(state.delete_in_flight);
    assert!(state.tree_modified);
    assert!(state.computed_views.dirty);
    assert!(state.tree.as_ref().unwrap().get(ids.a).is_none());
    assert_eq!(state.tree.as_ref().unwrap().total_size(), 500);
    assert_eq!(state.selected_index, 1);

    state.request_delete();
    assert_eq!(state.mode, AppMode::Browsing);
    state.poll_delete(None);
    assert!(state.delete_in_flight);
    state.poll_delete(Some(Ok(100)));
    assert!(!state.delete_in_flight);
    assert_eq!(state.session_stats.bytes_freed, 100);
    assert_eq!(state.session_stats.items_deleted, 1);

    state.pending_delete = Some(PendingDelete { node_id: ids.c, path: s("/r/b/c.txt") });
    state.confirm_delete().unwrap();
    state.poll_delete(Some(Err(s("Delete failed: denied"))));
    assert_eq!(state.error_message, Some(s("Delete failed: denied")));
    assert_eq!(state.session_stats.items_deleted, 1);
    assert_eq!(state.mode, AppMode::Browsing);
}

#[test]
fn a_multi_delete_removes_the_deduped_selection() {
    let (mut state, ids) = expanded();
    state.add_to_selection(ids.e);
    state.add_to_selection(ids.b);
    state.add_to_selection(ids.a);
    state.request_delete();
    assert_eq!(state.mode, AppMode::ConfirmMultiDelete);
    let pending: Vec<(NodeId, String, u64)> = state
        .pending_multi_delete
        .as_ref()
        .unwrap()
        .iter()
        .map(|i| (i.node_id, i.path.clone(), i.size))
        .collect();
    assert_eq!(pending, vec![(ids.b, s("/r/b"), 500), (ids.a, s("/r/a.txt"), 100)]);
    state.cancel_multi_delete();
    assert_eq!(state.mode, AppMode::Browsing);
    assert!(state.confirm_multi_delete().is_empty());
    assert_eq!(state.mode, AppMode::Browsing);

    state.go_to_last();
    state.request_delete();
    let jobs = state.confirm_multi_delete();
    assert_eq!(jobs.len(), 2);
    assert_eq!(state.mode, AppMode::MultiDeleting);
    assert_eq!(state.selection_count(), 0);
    assert!(!state.selecting_mode);
    assert!(state.tree_modified);
    let tree = state.tree.as_ref().unwrap();
    assert_eq!(tree.live_count(), 1);
    assert_eq!(tree.total_size(), 0);
    assert_eq!(state.selected_index, 0);
    let progress = state.multi_delete_progress.as_ref().unwrap();
    assert_eq!((progress.total, progress.completed), (2, 0));

    state.request_delete();
    assert_eq!(state.mode, AppMode::MultiDeleting);

    state.poll_multi_delete(&vec![MultiDeleteResult::Success { size: 500 }]);
    assert_eq!(state.mode, AppMode::MultiDeleting);
    let progress = state.multi_delete_progress.as_ref().unwrap();
    assert_eq!((progress.completed, progress.bytes_freed), (1, 500));
    state.poll_multi_delete(&Vec::new());
    assert_eq!(state.mode, AppMode::MultiDeleting);
    state.poll_multi_delete(&vec![MultiDeleteResult::Failure { path: s("/r/a.txt"), error: s("denied") }]);
    assert_eq!(state.mode, AppMode::Browsing);
    assert!(state.multi_delete_progress.is_none());
    assert_eq!(state.error_message, Some(s("Delete failed: /r/a.txt: denied")));
    assert_eq!(state.session_stats.bytes_freed, 500);
    assert_eq!(state.session_stats.items_deleted, 1);
}

#[test]
fn several_failures_are_summed_up() {
    let mut progress = MultiDeleteProgress::new(3);
    assert_eq!(progress.failure_summary(), None);
    progress.record(&MultiDeleteResult::Failure { path: s("/x"), error: s("busy") });
    progress.record(&MultiDeleteResult::Success { size: 7 });
    assert!(!progress.is_done());
    progress.record(&MultiDeleteResult::Failure { path: s("/y"), error: s("denied") });
    assert!(progress.is_done());
    assert_eq!(progress.bytes_freed, 7);
    assert_eq!(progress.failure_summary(), Some(s("2 deletions failed (first: busy)")));
}

#[test]
fn a_selection_of_tombstones_asks_for_nothing() {
    let (mut state, ids) = browsing();
    state.add_to_selection(ids.a);
    state.tree.as_mut().unwrap().remove_node(ids.a);
    state.request_delete();
    assert_eq!(state.mode, AppMode::Browsing);
    assert!(state.pending_multi_delete.is_none());
}

#[test]
fn defaults_are_empty() {
    let stats = SessionStats::default();
    assert_eq!((stats.bytes_freed, stats.items_deleted), (0, 0));
    let view = dux::app::ViewState::default();
    assert_eq!((view.selected_index, view.scroll_offset), (0, 0));
    let progress = ScanProgress::default();
    assert_eq!(progress.files_scanned + progress.dirs_scanned + progress.errors, 0);
    assert_eq!(progress.total_entries(), 0);
}

#[test]
fn session_statistics_stop_at_their_limits() {
    let mut stats = SessionStats { bytes_freed: u64::MAX - 1, items_deleted: u32::MAX };
    stats.record_deleted(10);
    assert_eq!(stats.bytes_freed, u64::MAX);
    assert_eq!(stats.items_deleted, u32::MAX);
}

#[test]
fn views_are_recomputed_when_dirty() {
    let (mut state, ids) = browsing();
    state.large_files_state.selected_index = 2;
    state.tree.as_mut().unwrap().remove_node(ids.b);
    state.computed_views.dirty = true;
    state.ensure_views_computed(now());
    assert!(!state.computed_views.dirty);
    assert_eq!(state.computed_views.large_files.len(), 1);
    assert_eq!(state.large_files_state.selected_index, 0);
    state.cycle_stale_threshold(now());
    assert_eq!(state.computed_views.stale_threshold.label(), "30d");
}

#[test]
fn key_bindings_while_browsing() {
    let browse = |k: KeyPress, has: bool, selecting: bool| handle_key(k, AppMode::Browsing, has, selecting);
    assert_eq!(browse(key(KeyCode::Char('q')), false, false), Action::Quit);
    assert_eq!(browse(key(KeyCode::Char('c')), false, false), Action::Tick);
    assert_eq!(
        browse(KeyPress { code: KeyCode::Char('c'), shift: false, control: true }, false, false),
        Action::Quit
    );
    assert_eq!(browse(key(KeyCode::Char('v')), false, false), Action::ToggleSelect);
    assert_eq!(browse(key(KeyCode::Up), false, false), Action::MoveUp);
    assert_eq!(browse(key(KeyCode::Up), false, true), Action::SelectUp);
    assert_eq!(
        browse(KeyPress { code: KeyCode::Down, shift: true, control: false }, false, false),
        Action::SelectDown
    );
    assert_eq!(browse(key(KeyCode::Char('K')), false, false), Action::SelectUp);
    assert_eq!(browse(key(KeyCode::Char('J')), false, false), Action::SelectDown);
    assert_eq!(browse(key(KeyCode::Char('k')), false, false), Action::MoveUp);
    assert_eq!(browse(key(KeyCode::Char('k')), false, true), Action::SelectUp);
    assert_eq!(browse(key(KeyCode::Char('j')), false, false), Action::MoveDown);
    assert_eq!(browse(key(KeyCode::Char('j')), false, true), Action::SelectDown);
    assert_eq!(browse(key(KeyCode::PageUp), false, false), Action::PageUp);
    assert_eq!(browse(key(KeyCode::PageUp), false, true), Action::SelectPageUp);
    assert_eq!(browse(key(KeyCode::PageDown), false, false), Action::PageDown);
    assert_eq!(browse(key(KeyCode::PageDown), false, true), Action::SelectPageDown);
    assert_eq!(browse(key(KeyCode::Home), false, false), Action::GoToFirst);
    assert_eq!(browse(key(KeyCode::Home), false, true), Action::SelectToFirst);
    assert_eq!(browse(key(KeyCode::End), false, false), Action::GoToLast);
    assert_eq!(browse(key(KeyCode::End), false, true), Action::SelectToLast);
    assert_eq!(browse(key(KeyCode::Char('g')), false, false), Action::GoToFirst);
    assert_eq!(browse(key(KeyCode::Char('g')), false, true), Action::SelectToFirst);
    assert_eq!(browse(key(KeyCode::Char('G')), false, false), Action::GoToLast);
    assert_eq!(browse(key(KeyCode::Char('G')), false, true), Action::SelectToLast);
    assert_eq!(browse(key(KeyCode::Right), false, false), Action::Expand);
    assert_eq!(browse(key(KeyCode::Char('l')), false, false), Action::Expand);
    assert_eq!(browse(key(KeyCode::Left), false, false), Action::Collapse);
    assert_eq!(browse(key(KeyCode::Char('h')), false, false), Action::Collapse);
    assert_eq!(browse(key(KeyCode::Char(' ')), false, false), Action::Toggle);
    assert_eq!(browse(key(KeyCode::Tab), false, false), Action::NextView);
    assert_eq!(browse(key(KeyCode::BackTab), false, false), Action::PrevView);
    assert_eq!(browse(key(KeyCode::Char('s')), false, false), Action::CycleStaleThreshold);
    assert_eq!(browse(key(KeyCode::Enter), false, false), Action::DrillDown);
    assert_eq!(browse(key(KeyCode::Backspace), false, false), Action::GoBack);
    assert_eq!(browse(key(KeyCode::Esc), false, false), Action::GoBack);
    assert_eq!(browse(key(KeyCode::Esc), true, false), Action::ClearSelection);
    assert_eq!(browse(key(KeyCode::Esc), false, true), Action::ClearSelection);
    assert_eq!(browse(key(KeyCode::Char('?')), false, false), Action::ShowHelp);
    assert_eq!(browse(key(KeyCode::Char('o')), false, false), Action::OpenInFinder);
    assert_eq!(browse(key(KeyCode::Char('d')), false, false), Action::Delete);
    assert_eq!(browse(key(KeyCode::Char('x')), false, false), Action::Tick);
    assert_eq!(browse(key(KeyCode::Other), false, false), Action::Tick);
}

#[test]
fn key_bindings_in_the_other_modes() {
    let plain = |code: KeyCode, mode: AppMode| handle_key(key(code), mode, false, false);
    assert_eq!(plain(KeyCode::Esc, AppMode::Help), Action::HideHelp);
    assert_eq!(plain(KeyCode::Char('q'), AppMode::Help), Action::HideHelp);
    assert_eq!(plain(KeyCode::Char('?'), AppMode::Help), Action::HideHelp);
    assert_eq!(plain(KeyCode::Char('d'), AppMode::Help), Action::Tick);
    for mode in [AppMode::Scanning, AppMode::Finalizing, AppMode::MultiDeleting] {
        assert_eq!(plain(KeyCode::Char('q'), mode), Action::Quit);
        assert_eq!(plain(KeyCode::Char('c'), mode), Action::Tick);
        assert_eq!(
            handle_key(KeyPress { code: KeyCode::Char('c'), shift: false, control: true }, mode, false, false),
            Action::Quit
        );
        assert_eq!(plain(KeyCode::Enter, mode), Action::Tick);
    }
    assert_eq!(plain(KeyCode::Char('y'), AppMode::ConfirmDelete), Action::ConfirmDelete);
    assert_eq!(plain(KeyCode::Enter, AppMode::ConfirmDelete), Action::ConfirmDelete);
    assert_eq!(plain(KeyCode::Char('n'), AppMode::ConfirmDelete), Action::CancelDelete);
    assert_eq!(plain(KeyCode::Esc, AppMode::ConfirmDelete), Action::CancelDelete);
    assert_eq!(plain(KeyCode::Char('q'), AppMode::ConfirmDelete), Action::Tick);
    assert_eq!(plain(KeyCode::Char('y'), AppMode::ConfirmMultiDelete), Action::ConfirmMultiDelete);
    assert_eq!(plain(KeyCode::Enter, AppMode::ConfirmMultiDelete), Action::ConfirmMultiDelete);
    assert_eq!(plain(KeyCode::Char('n'), AppMode::ConfirmMultiDelete), Action::CancelMultiDelete);
    assert_eq!(plain(KeyCode::Esc, AppMode::ConfirmMultiDelete), Action::CancelMultiDelete);
    assert_eq!(EventHandler::new(50).tick_rate_ms, 50);
}

#[test]
fn progress_line() {
    let mut progress = ScanProgress::new();
    progress.files_scanned = 1200;
    progress.dirs_scanned = 34;
    progress.bytes_scanned = 1536;
    assert_eq!(progress_indicator(&progress, 0), "⠋ 1,234 files, 1.5 KB");
    assert_eq!(progress_indicator(&progress, 13), "⠸ 1,234 files, 1.5 KB");
}

#[test]
fn actions_are_dispatched_to_the_state() {
    let (mut state, ids) = expanded();
    assert!(matches!(state.handle_action(Action::MoveDown, now()), Effect::Nothing));
    assert_eq!(state.selected_index, 1);
    state.handle_action(Action::GoToLast, now());
    assert_eq!(state.selected_node(), Some(ids.a));
    match state.handle_action(Action::OpenInFinder, now()) {
        Effect::Reveal(path) => assert_eq!(path, "/r/a.txt"),
        other => panic!("unexpected effect {:?}", other),
    }
    assert!(matches!(state.handle_action(Action::ConfirmDelete, now()), Effect::Nothing));
    state.handle_action(Action::Delete, now());
    assert_eq!(state.mode, AppMode::ConfirmDelete);
    match state.handle_action(Action::ConfirmDelete, now()) {
        Effect::Delete(item) => {
            assert_eq!(item.node_id, ids.a);
            assert_eq!(item.size, 100);
        }
        other => panic!("unexpected effect {:?}", other),
    }
    assert_eq!(state.mode, AppMode::Browsing);
    state.poll_delete(Some(Ok(100)));

    state.handle_action(Action::GoToFirst, now());
    state.handle_action(Action::SelectDown, now());
    state.handle_action(Action::SelectDown, now());
    assert_eq!(state.selected_nodes.ids(), &vec![ids.b, ids.d]);
    assert!(matches!(state.handle_action(Action::ConfirmMultiDelete, now()), Effect::Nothing));
    state.handle_action(Action::Delete, now());
    assert_eq!(state.mode, AppMode::ConfirmMultiDelete);
    match state.handle_action(Action::ConfirmMultiDelete, now()) {
        Effect::DeleteBatch(items) => {
            assert_eq!(items.len(), 1);
            assert_eq!(items[0].node_id, ids.b);
        }
        other => panic!("unexpected effect {:?}", other),
    }
    assert_eq!(state.mode, AppMode::MultiDeleting);
    state.poll_multi_delete(&vec![MultiDeleteResult::Success { size: 500 }]);
    assert_eq!(state.mode, AppMode::Browsing);

    state.handle_action(Action::ShowHelp, now());
    assert_eq!(state.mode, AppMode::Help);
    state.handle_action(Action::HideHelp, now());
    state.handle_action(Action::NextView, now());
    assert_eq!(state.view_mode, ViewMode::LargeFiles);
    assert!(!state.computed_views.dirty);
    assert_eq!(state.computed_views.large_files.len(), 0);
    state.handle_action(Action::PrevView, now());
    state.handle_action(Action::CycleStaleThreshold, now());
    assert_eq!(state.computed_views.stale_threshold.label(), "30d");
    state.handle_action(Action::Tick, now());
    assert!(!state.should_quit);
    state.handle_action(Action::Quit, now());
    assert!(state.should_quit);
}

#[test]
fn scanner_messages_are_taken_in() {
    let mut state = AppState::new(s("/r"));
    let mut progress = ScanProgress::new();
    progress.dirs_scanned = 3;
    assert_eq!(state.handle_scan_message(ScanMessage::StartedDirectory(s("/r"))), ScanStep::Continue);
    assert_eq!(state.handle_scan_message(ScanMessage::Progress(progress)), ScanStep::Continue);
    assert_eq!(state.progress.dirs_scanned, 3);
    assert_eq!(state.handle_scan_message(ScanMessage::Error(s("denied"))), ScanStep::Continue);
    assert_eq!(state.error_message, Some(s("denied")));
    assert_eq!(state.handle_scan_message(ScanMessage::Finalizing), ScanStep::Continue);
    assert_eq!(state.mode, AppMode::Finalizing);
    assert_eq!(state.handle_scan_message(ScanMessage::Completed), ScanStep::CollectTree);
    assert_eq!(state.mode, AppMode::Finalizing);
    assert_eq!(state.handle_scan_message(ScanMessage::Cancelled), ScanStep::Continue);
    assert!(state.should_quit);
}

#[test]
fn overlays_are_centred() {
    let area = Area { x: 0, y: 0, width: 100, height: 40 };
    assert_eq!(centered_rect(60, 50, area), Area { x: 20, y: 10, width: 60, height: 20 });
    let shifted = Area { x: 10, y: 5, width: 81, height: 11 };
    assert_eq!(centered_rect(50, 30, shifted), Area { x: 30, y: 9, width: 40, height: 3 });
    assert_eq!(centered_rect(100, 100, shifted), shifted);
    assert_eq!(centered_rect(0, 0, area), Area { x: 50, y: 20, width: 0, height: 0 });
}
