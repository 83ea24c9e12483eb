pub mod backend;

pub use backend::{BackendType, Color, CursorInfo, RenderCell};
