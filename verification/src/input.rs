pub mod keyboard;
pub mod shortcuts;

pub use keyboard::{KeyCode, KeyboardHandler, Modifiers, PhysicalKey};
pub use shortcuts::{ShortcutAction, ShortcutHandler};
