//! The browsing state machine: modes, cursors, the selection and deletions.

pub mod action;
pub mod browse;
pub mod cursor;
pub mod delete;
pub mod dispatch;
pub mod keys;
pub mod layout;
pub mod selection;
pub mod state;
pub mod status;

pub use action::Action;
pub use dispatch::{Effect, ScanStep};
pub use layout::{centered_rect, Area};
pub use keys::{handle_key, EventHandler, KeyCode, KeyPress};
pub use status::progress_indicator;
pub use selection::Selection;
pub use state::{
    AppMode, AppState, DeleteItem, MultiDeleteProgress, MultiDeleteResult, SessionStats, ViewMode,
    ViewState,
};
