//! The key bindings: which action a key press means in each mode.

use vstd::prelude::*;
use crate::app::action::Action;
use crate::app::state::AppMode;

verus! {

/// The key of a key press, as far as the bindings tell keys apart.
#[derive(Debug, Clone, Copy, PartialEq, Eq, Structural)]
pub enum KeyCode {
    Char(char),
    Up,
    Down,
    Left,
    Right,
    PageUp,
    PageDown,
    Home,
    End,
    Tab,
    BackTab,
    Enter,
    Backspace,
    Esc,
    Other,
}

/// A key press with the modifiers held.
#[derive(Debug, Clone, Copy, PartialEq, Eq, Structural)]
pub struct KeyPress {
    pub code: KeyCode,
    pub shift: bool,
    pub control: bool,
}

/// Polls the terminal for events, giving a tick where none comes in time.
#[derive(Debug, Clone, Copy, PartialEq, Eq, Structural)]
pub struct EventHandler {
    /// How long to wait for an event, in milliseconds.
    pub tick_rate_ms: u64,
}

impl EventHandler {
    pub fn new(tick_rate_ms: u64) -> (h: EventHandler)
        ensures
            h.tick_rate_ms == tick_rate_ms,
    {
        EventHandler { tick_rate_ms }
    }
}

/// While the help overlay is shown, `Esc`, `q` and `?` close it.
pub open spec fn key_help(key: KeyPress) -> Action {
    match key.code {
        KeyCode::Esc => Action::HideHelp,
        KeyCode::Char(c) => if c == 'q' || c == '?' {
            Action::HideHelp
        } else {
            Action::Tick
        },
        _ => Action::Tick,
    }
}

/// While scanning or deleting a batch, `q` and `Ctrl-c` quit.
pub open spec fn key_quit_only(key: KeyPress) -> Action {
    match key.code {
        KeyCode::Char(c) => if c == 'q' || (c == 'c' && key.control) {
            Action::Quit
        } else {
            Action::Tick
        },
        _ => Action::Tick,
    }
}

/// In a confirmation dialog, `y` and `Enter` confirm, `n` and `Esc` cancel.
pub open spec fn key_confirm(key: KeyPress, yes: Action, no: Action) -> Action {
    match key.code {
        KeyCode::Enter => yes,
        KeyCode::Esc => no,
        KeyCode::Char(c) => if c == 'y' {
            yes
        } else if c == 'n' {
            no
        } else {
            Action::Tick
        },
        _ => Action::Tick,
    }
}

/// What a letter or sign means while browsing.
pub open spec fn char_browsing(c: char, control: bool, selecting: bool) -> Action {
    if c == 'q' {
        Action::Quit
    } else if c == 'c' && control {
        Action::Quit
    } else if c == 'v' {
        Action::ToggleSelect
    } else if c == 'K' {
        Action::SelectUp
    } else if c == 'J' {
        Action::SelectDown
    } else if c == 'k' {
        if selecting {
            Action::SelectUp
        } else {
            Action::MoveUp
        }
    } else if c == 'j' {
        if selecting {
            Action::SelectDown
        } else {
            Action::MoveDown
        }
    } else if c == 'g' {
        if selecting {
            Action::SelectToFirst
        } else {
            Action::GoToFirst
        }
    } else if c == 'G' {
        if selecting {
            Action::SelectToLast
        } else {
            Action::GoToLast
        }
    } else if c == 'l' {
        Action::Expand
    } else if c == 'h' {
        Action::Collapse
    } else if c == ' ' {
        Action::Toggle
    } else if c == 's' {
        Action::CycleStaleThreshold
    } else if c == '?' {
        Action::ShowHelp
    } else if c == 'o' {
        Action::OpenInFinder
    } else if c == 'd' {
        Action::Delete
    } else {
        Action::Tick
    }
}

/// What a key means while browsing. With shift held, or in selecting mode,
/// the keys that move the cursor extend the selection instead. `Esc` clears a
/// selection where there is one and goes back otherwise.
pub open spec fn key_browsing(key: KeyPress, has_selection: bool, selecting: bool) -> Action {
    let extend = key.shift || selecting;
    match key.code {
        KeyCode::Char(c) => char_browsing(c, key.control, selecting),
        KeyCode::Up => if extend {
            Action::SelectUp
        } else {
            Action::MoveUp
        },
        KeyCode::Down => if extend {
            Action::SelectDown
        } else {
            Action::MoveDown
        },
        KeyCode::PageUp => if extend {
            Action::SelectPageUp
        } else {
            Action::PageUp
        },
        KeyCode::PageDown => if extend {
            Action::SelectPageDown
        } else {
            Action::PageDown
        },
        KeyCode::Home => if extend {
            Action::SelectToFirst
        } else {
            Action::GoToFirst
        },
        KeyCode::End => if extend {
            Action::SelectToLast
        } else {
            Action::GoToLast
        },
        KeyCode::Right => Action::Expand,
        KeyCode::Left => Action::Collapse,
        KeyCode::Tab => Action::NextView,
        KeyCode::BackTab => Action::PrevView,
        KeyCode::Enter => Action::DrillDown,
        KeyCode::Backspace => Action::GoBack,
        KeyCode::Esc => if has_selection || selecting {
            Action::ClearSelection
        } else {
            Action::GoBack
        },
        KeyCode::Other => Action::Tick,
    }
}

/// The action that a key press means in a mode.
pub open spec fn key_action(key: KeyPress, mode: AppMode, has_selection: bool, selecting: bool) -> Action {
    match mode {
        AppMode::Help => key_help(key),
        AppMode::Scanning => key_quit_only(key),
        AppMode::Finalizing => key_quit_only(key),
        AppMode::Browsing => key_browsing(key, has_selection, selecting),
        AppMode::ConfirmDelete => key_confirm(key, Action::ConfirmDelete, Action::CancelDelete),
        AppMode::ConfirmMultiDelete => key_confirm(
            key,
            Action::ConfirmMultiDelete,
            Action::CancelMultiDelete,
        ),
        AppMode::MultiDeleting => key_quit_only(key),
    }
}

/// Map key presses to actions based on the current mode.
pub fn handle_key(key: KeyPress, mode: AppMode, has_selection: bool, selecting: bool) -> (a: Action)
    ensures
        a == key_action(key, mode, has_selection, selecting),
{
    match mode {
        AppMode::Help => handle_key_help(key),
        AppMode::Scanning => handle_key_scanning(key),
        AppMode::Finalizing => handle_key_scanning(key),
        AppMode::Browsing => handle_key_browsing(key, has_selection, selecting),
        AppMode::ConfirmDelete => handle_key_confirm_delete(key),
        AppMode::ConfirmMultiDelete => handle_key_confirm_multi_delete(key),
        AppMode::MultiDeleting => handle_key_multi_deleting(key),
    }
}

pub fn handle_key_help(key: KeyPress) -> (a: Action)
    ensures
        a == key_help(key),
{
    match key.code {
        KeyCode::Esc => Action::HideHelp,
        KeyCode::Char(c) => if c == 'q' || c == '?' {
            Action::HideHelp
        } else {
            Action::Tick
        },
        _ => Action::Tick,
    }
}

pub fn handle_key_scanning(key: KeyPress) -> (a: Action)
    ensures
        a == key_quit_only(key),
{
    match key.code {
        KeyCode::Char(c) => if c == 'q' || (c == 'c' && key.control) {
            Action::Quit
        } else {
            Action::Tick
        },
        _ => Action::Tick,
    }
}

pub fn handle_key_multi_deleting(key: KeyPress) -> (a: Action)
    ensures
        a == key_quit_only(key),
{
    handle_key_scanning(key)
}

fn confirm_or_cancel(key: KeyPress, yes: Action, no: Action) -> (a: Action)
    ensures
        a == key_confirm(key, yes, no),
{
    match key.code {
        KeyCode::Enter => yes,
        KeyCode::Esc => no,
        KeyCode::Char(c) => if c == 'y' {
            yes
        } else if c == 'n' {
            no
        } else {
            Action::Tick
        },
        _ => Action::Tick,
    }
}

pub fn handle_key_confirm_delete(key: KeyPress) -> (a: Action)
    ensures
        a == key_confirm(key, Action::ConfirmDelete, Action::CancelDelete),
{
    confirm_or_cancel(key, Action::ConfirmDelete, Action::CancelDelete)
}

pub fn handle_key_confirm_multi_delete(key: KeyPress) -> (a: Action)
    ensures
        a == key_confirm(key, Action::ConfirmMultiDelete, Action::CancelMultiDelete),
{
    confirm_or_cancel(key, Action::ConfirmMultiDelete, Action::CancelMultiDelete)
}

fn handle_char_browsing(c: char, control: bool, selecting: bool) -> (a: Action)
    ensures
        a == char_browsing(c, control, selecting),
{
    if c == 'q' {
        Action::Quit
    } else if c == 'c' && control {
        Action::Quit
    } else if c == 'v' {
        Action::ToggleSelect
    } else if c == 'K' {
        Action::SelectUp
    } else if c == 'J' {
        Action::SelectDown
    } else if c == 'k' {
        if selecting {
            Action::SelectUp
        } else {
            Action::MoveUp
        }
    } else if c == 'j' {
        if selecting {
            Action::SelectDown
        } else {
            Action::MoveDown
        }
    } else if c == 'g' {
        if selecting {
            Action::SelectToFirst
        } else {
            Action::GoToFirst
        }
    } else if c == 'G' {
        if selecting {
            Action::SelectToLast
        } else {
            Action::GoToLast
        }
    } else if c == 'l' {
        Action::Expand
    } else if c == 'h' {
        Action::Collapse
    } else if c == ' ' {
        Action::Toggle
    } else if c == 's' {
        Action::CycleStaleThreshold
    } else if c == '?' {
        Action::ShowHelp
    } else if c == 'o' {
        Action::OpenInFinder
    } else if c == 'd' {
        Action::Delete
    } else {
        Action::Tick
    }
}

pub fn handle_key_browsing(key: KeyPress, has_selection: bool, selecting: bool) -> (a: Action)
    ensures
        a == key_browsing(key, has_selection, selecting),
{
    let extend = key.shift || selecting;
    match key.code {
        KeyCode::Char(c) => handle_char_browsing(c, key.control, selecting),
        KeyCode::Up => if extend {
            Action::SelectUp
        } else {
            Action::MoveUp
        },
        KeyCode::Down => if extend {
            Action::SelectDown
        } else {
            Action::MoveDown
        },
        KeyCode::PageUp => if extend {
            Action::SelectPageUp
        } else {
            Action::PageUp
        },
        KeyCode::PageDown => if extend {
            Action::SelectPageDown
        } else {
            Action::PageDown
        },
        KeyCode::Home => if extend {
            Action::SelectToFirst
        } else {
            Action::GoToFirst
        },
        KeyCode::End => if extend {
            Action::SelectToLast
        } else {
            Action::GoToLast
        },
        KeyCode::Right => Action::Expand,
        KeyCode::Left => Action::Collapse,
        KeyCode::Tab => Action::NextView,
        KeyCode::BackTab => Action::PrevView,
        KeyCode::Enter => Action::DrillDown,
        KeyCode::Backspace => Action::GoBack,
        KeyCode::Esc => if has_selection || selecting {
            Action::ClearSelection
        } else {
            Action::GoBack
        },
        KeyCode::Other => Action::Tick,
    }
}

} // verus!
