pub mod selection;

pub use selection::Selection;
