pub mod layout;
pub mod manager;
pub mod pane;

pub use layout::{Layout, LayoutNode, Rect, SplitDirection};
pub use manager::PaneManager;
pub use pane::Pane;

use vstd::prelude::*;

verus! {

/// The id of a pane: given once, in rising order, starting at 0.
pub type PaneId = usize;

} // verus!
