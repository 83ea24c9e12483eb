use crate::input::keyboard::{KeyCode, Modifiers};
use vstd::prelude::*;

verus! {

/// What a keyboard shortcut asks for.
#[derive(Debug, Clone, Copy, PartialEq, Eq, Structural)]
pub enum ShortcutAction {
    /// Split the active pane into top and bottom.
    SplitHorizontal,
    /// Split the active pane into left and right.
    SplitVertical,
    /// Close the active pane.
    ClosePane,
    /// Move the focus to the pane on the left.
    MoveFocusLeft,
    /// Move the focus to the pane below.
    MoveFocusDown,
    /// Move the focus to the pane above.
    MoveFocusUp,
    /// Move the focus to the pane on the right.
    MoveFocusRight,
    /// Move the focus to the next pane.
    MoveFocusNext,
    /// Move the focus to the previous pane.
    MoveFocusPrev,
    /// Switch broadcast mode on or off.
    ToggleBroadcast,
    /// Copy the selection to the clipboard.
    Copy,
    /// Paste the clipboard.
    Paste,
    /// Make the font bigger.
    IncreaseFontSize,
    /// Make the font smaller.
    DecreaseFontSize,
    /// Switch mark mode on or off.
    ToggleMarkMode,
}

/// The shortcut that a key stands for with Control and Shift held: H, J, K,
/// L move the focus left, down, up and right, N and P to the next and the
/// previous pane; V and S split; W closes; B toggles broadcast; C copies.
pub open spec fn control_shift_shortcut(code: KeyCode) -> Option<ShortcutAction> {
    match code {
        KeyCode::KeyH => Some(ShortcutAction::MoveFocusLeft),
        KeyCode::KeyJ => Some(ShortcutAction::MoveFocusDown),
        KeyCode::KeyK => Some(ShortcutAction::MoveFocusUp),
        KeyCode::KeyL => Some(ShortcutAction::MoveFocusRight),
        KeyCode::KeyN => Some(ShortcutAction::MoveFocusNext),
        KeyCode::KeyP => Some(ShortcutAction::MoveFocusPrev),
        KeyCode::KeyV => Some(ShortcutAction::SplitVertical),
        KeyCode::KeyS => Some(ShortcutAction::SplitHorizontal),
        KeyCode::KeyW => Some(ShortcutAction::ClosePane),
        KeyCode::KeyB => Some(ShortcutAction::ToggleBroadcast),
        KeyCode::KeyC => Some(ShortcutAction::Copy),
        _ => None,
    }
}

/// The shortcut that a key press stands for, if any. Control and Shift
/// together choose among the pane shortcuts; Control with V pastes; Alt and
/// Shift with M toggle mark mode; Control with `=` or `-` (or the numeric
/// pad's `+` or `-`) changes the font size.
pub open spec fn shortcut_for(code: KeyCode, modifiers: Modifiers) -> Option<ShortcutAction> {
    if modifiers.control && modifiers.shift {
        control_shift_shortcut(code)
    } else if modifiers.control && code == KeyCode::KeyV {
        Some(ShortcutAction::Paste)
    } else if modifiers.alt && modifiers.shift {
        if code == KeyCode::KeyM {
            Some(ShortcutAction::ToggleMarkMode)
        } else {
            None
        }
    } else if modifiers.control {
        if code == KeyCode::Equal || code == KeyCode::NumpadAdd {
            Some(ShortcutAction::IncreaseFontSize)
        } else if code == KeyCode::Minus || code == KeyCode::NumpadSubtract {
            Some(ShortcutAction::DecreaseFontSize)
        } else {
            None
        }
    } else {
        None
    }
}

/// Recognises keyboard shortcuts.
pub struct ShortcutHandler;

impl ShortcutHandler {
    pub fn new() -> (handler: ShortcutHandler) {
        ShortcutHandler
    }

    /// The shortcut that a key press stands for, if any.
    pub fn match_shortcut(&self, key_code: KeyCode, modifiers: Modifiers) -> (action: Option<
        ShortcutAction,
    >)
        ensures
            action == shortcut_for(key_code, modifiers),
    {
        let ctrl_shift = modifiers.control_key() && modifiers.shift_key();
        if ctrl_shift {
            match key_code {
                KeyCode::KeyH => Some(ShortcutAction::MoveFocusLeft),
                KeyCode::KeyJ => Some(ShortcutAction::MoveFocusDown),
                KeyCode::KeyK => Some(ShortcutAction::MoveFocusUp),
                KeyCode::KeyL => Some(ShortcutAction::MoveFocusRight),
                KeyCode::KeyN => Some(ShortcutAction::MoveFocusNext),
                KeyCode::KeyP => Some(ShortcutAction::MoveFocusPrev),
                KeyCode::KeyV => Some(ShortcutAction::SplitVertical),
                KeyCode::KeyS => Some(ShortcutAction::SplitHorizontal),
                KeyCode::KeyW => Some(ShortcutAction::ClosePane),
                KeyCode::KeyB => Some(ShortcutAction::ToggleBroadcast),
                KeyCode::KeyC => Some(ShortcutAction::Copy),
                _ => None,
            }
        } else if modifiers.control_key() && key_code == KeyCode::KeyV {
            Some(ShortcutAction::Paste)
        } else if modifiers.alt_key() && modifiers.shift_key() {
            match key_code {
                KeyCode::KeyM => Some(ShortcutAction::ToggleMarkMode),
                _ => None,
            }
        } else if modifiers.control_key() {
            match key_code {
                KeyCode::Equal | KeyCode::NumpadAdd => Some(ShortcutAction::IncreaseFontSize),
                KeyCode::Minus | KeyCode::NumpadSubtract => Some(ShortcutAction::DecreaseFontSize),
                _ => None,
            }
        } else {
            None
        }
    }
}

impl Default for ShortcutHandler {
    fn default() -> (handler: Self) {
        ShortcutHandler::new()
    }
}

} // verus!
