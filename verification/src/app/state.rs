use vstd::prelude::*;
use crate::app::selection::Selection;
use crate::scanner::progress::ScanProgress;
use crate::tree::arena::DiskTree;
use crate::tree::node::NodeId;
use crate::views::computed::ComputedViews;

verus! {

/// Statistics tracked during the session.
#[derive(Debug, Clone)]
pub struct SessionStats {
    /// Total bytes freed by deletions.
    pub bytes_freed: u64,
    /// Number of items deleted.
    pub items_deleted: u32,
}

/// Application mode.
#[derive(Debug, Clone, Copy, PartialEq, Eq, Structural)]
pub enum AppMode {
    /// Scanning filesystem.
    Scanning,
    /// Finalizing scan (aggregating sizes).
    Finalizing,
    /// Browsing results.
    Browsing,
    /// Showing help overlay.
    Help,
    /// Showing delete confirmation dialog (single item).
    ConfirmDelete,
    /// Showing multi-delete confirmation dialog.
    ConfirmMultiDelete,
    /// Multi-delete in progress with progress overlay.
    MultiDeleting,
}

/// Which data projection is displayed.
#[derive(Debug, Clone, Copy, PartialEq, Eq, Structural)]
pub enum ViewMode {
    Tree,
    LargeFiles,
    BuildArtifacts,
}

/// Per-view selection state.
#[derive(Debug, Clone, Copy, PartialEq, Eq, Structural)]
pub struct ViewState {
    pub selected_index: usize,
    pub scroll_offset: usize,
}

/// Result from a single item in a multi-delete batch.
#[derive(Debug, Clone)]
pub enum MultiDeleteResult {
    Success { size: u64 },
    Failure { path: String, error: String },
}

/// One failed deletion: the path and why.
#[derive(Debug, Clone)]
pub struct DeleteFailure {
    pub path: String,
    pub error: String,
}

/// Progress tracker for multi-delete operations.
#[derive(Debug, Clone)]
pub struct MultiDeleteProgress {
    pub total: usize,
    pub completed: usize,
    pub bytes_freed: u64,
    pub failures: Vec<DeleteFailure>,
}

/// One item of a deletion: the node, its path and the size it had.
#[derive(Debug, Clone)]
pub struct DeleteItem {
    pub node_id: NodeId,
    pub path: String,
    pub size: u64,
}

/// The node and path awaiting confirmation of a single delete.
#[derive(Debug, Clone)]
pub struct PendingDelete {
    pub node_id: NodeId,
    pub path: String,
}

/// Application state.
pub struct AppState {
    /// Current mode.
    pub mode: AppMode,
    /// Root path being scanned.
    pub root_path: String,
    /// Disk tree (`None` while scanning).
    pub tree: Option<DiskTree>,
    /// Current scan progress.
    pub progress: ScanProgress,
    /// Currently selected index in the visible list (tree view).
    pub selected_index: usize,
    /// Current view root (for drill-down).
    pub view_root: NodeId,
    /// Navigation history (for going back).
    pub history: Vec<NodeId>,
    /// Scroll offset for the tree view.
    pub scroll_offset: usize,
    /// Visible area height (set by the renderer).
    pub visible_height: usize,
    /// Whether the app should quit.
    pub should_quit: bool,
    /// Spinner frame for animation.
    pub spinner_frame: usize,
    /// Error message to display.
    pub error_message: Option<String>,
    /// Item pending deletion, for the confirmation dialog.
    pub pending_delete: Option<PendingDelete>,
    /// Session statistics (deleted items, freed space).
    pub session_stats: SessionStats,
    /// Whether the tree was loaded from cache.
    pub loaded_from_cache: bool,
    /// Whether the tree has been modified and the cache needs an update.
    pub tree_modified: bool,
    /// Whether a single delete is running in the background.
    pub delete_in_flight: bool,
    /// Current view mode.
    pub view_mode: ViewMode,
    /// Large files view state.
    pub large_files_state: ViewState,
    /// Build artifacts view state.
    pub build_artifacts_state: ViewState,
    /// Pre-computed view data.
    pub computed_views: ComputedViews,
    /// Multi-selected nodes.
    pub selected_nodes: Selection,
    /// Whether selecting mode is active.
    pub selecting_mode: bool,
    /// Items pending multi-delete confirmation.
    pub pending_multi_delete: Option<Vec<DeleteItem>>,
    /// Multi-delete progress tracker.
    pub multi_delete_progress: Option<MultiDeleteProgress>,
}

impl Default for SessionStats {
    fn default() -> (s: SessionStats)
        ensures
            s.bytes_freed == 0,
            s.items_deleted == 0,
    {
        SessionStats { bytes_freed: 0, items_deleted: 0 }
    }
}

impl Default for ViewState {
    fn default() -> (v: ViewState)
        ensures
            v.selected_index == 0,
            v.scroll_offset == 0,
    {
        ViewState { selected_index: 0, scroll_offset: 0 }
    }
}

impl AppState {
    /// The tree, where there is one, is well formed, and so is the selection.
    pub open spec fn wf(&self) -> bool {
        &&& self.tree is Some ==> self.tree->0.wf()
        &&& self.selected_nodes.wf()
    }

    /// The state in which the app starts: scanning, nothing to show yet.
    pub fn new(root_path: String) -> (s: AppState)
        ensures
            s.wf(),
            s.mode == AppMode::Scanning,
            s.root_path == root_path,
            s.tree is None,
            s.selected_index == 0,
            s.view_root == NodeId(0),
            s.history@.len() == 0,
            s.scroll_offset == 0,
            s.visible_height == 20,
            !s.should_quit,
            s.spinner_frame == 0,
            s.error_message is None,
            s.pending_delete is None,
            s.session_stats.bytes_freed == 0 && s.session_stats.items_deleted == 0,
            !s.loaded_from_cache && !s.tree_modified && !s.delete_in_flight,
            s.view_mode == ViewMode::Tree,
            s.large_files_state == (ViewState { selected_index: 0, scroll_offset: 0 }),
            s.build_artifacts_state == (ViewState { selected_index: 0, scroll_offset: 0 }),
            s.progress.files_scanned == 0 && s.progress.dirs_scanned == 0,
            s.progress.bytes_scanned == 0 && s.progress.errors == 0,
            s.progress.current_path is None,
            s.computed_views.dirty,
            s.computed_views.large_files@.len() == 0,
            s.computed_views.build_artifacts@.len() == 0,
            s.computed_views.stale_threshold == crate::views::stale::StaleThreshold::SevenDays,
            s.selected_nodes@.len() == 0,
            !s.selecting_mode,
            s.pending_multi_delete is None,
            s.multi_delete_progress is None,
    {
        AppState {
            mode: AppMode::Scanning,
            root_path,
            tree: None,
            progress: ScanProgress::new(),
            selected_index: 0,
            view_root: NodeId(0),
            history: Vec::new(),
            scroll_offset: 0,
            visible_height: 20,
            should_quit: false,
            spinner_frame: 0,
            error_message: None,
            pending_delete: None,
            session_stats: SessionStats { bytes_freed: 0, items_deleted: 0 },
            loaded_from_cache: false,
            tree_modified: false,
            delete_in_flight: false,
            view_mode: ViewMode::Tree,
            large_files_state: ViewState { selected_index: 0, scroll_offset: 0 },
            build_artifacts_state: ViewState { selected_index: 0, scroll_offset: 0 },
            computed_views: ComputedViews::new(),
            selected_nodes: Selection::new(),
            selecting_mode: false,
            pending_multi_delete: None,
            multi_delete_progress: None,
        }
    }

    /// Update scan progress.
    pub fn update_progress(&mut self, progress: ScanProgress)
        ensures
            *final(self) == (AppState { progress, ..*old(self) }),
    {
        self.progress = progress;
    }

    /// The scanner has begun to aggregate and sort.
    pub fn set_finalizing(&mut self)
        ensures
            *final(self) == (AppState { mode: AppMode::Finalizing, ..*old(self) }),
    {
        self.mode = AppMode::Finalizing;
    }

    /// Advance the spinner animation by one of its ten frames.
    pub fn tick_spinner(&mut self)
        ensures
            *final(self) == (AppState {
                spinner_frame: ((old(self).spinner_frame + 1) % 10) as usize,
                ..*old(self)
            }),
    {
        self.spinner_frame = (self.spinner_frame % 10 + 1) % 10;
    }

    /// Show help overlay.
    pub fn show_help(&mut self)
        ensures
            *final(self) == (AppState { mode: AppMode::Help, ..*old(self) }),
    {
        self.mode = AppMode::Help;
    }

    /// Hide help overlay.
    pub fn hide_help(&mut self)
        ensures
            *final(self) == (AppState { mode: AppMode::Browsing, ..*old(self) }),
    {
        self.mode = AppMode::Browsing;
    }

    /// Request quit.
    pub fn quit(&mut self)
        ensures
            *final(self) == (AppState { should_quit: true, ..*old(self) }),
    {
        self.should_quit = true;
    }

    /// Set error message.
    pub fn set_error(&mut self, message: String)
        ensures
            *final(self) == (AppState { error_message: Some(message), ..*old(self) }),
    {
        self.error_message = Some(message);
    }

    /// Clear error message.
    pub fn clear_error(&mut self)
        ensures
            *final(self) == (AppState { error_message: None, ..*old(self) }),
    {
        self.error_message = None;
    }
}

} // verus!
