pub mod emulator;
pub mod grid;
pub mod image;
pub mod vt;

pub use grid::{Cell, CellAttributes, Grid};
pub use emulator::TerminalEmulator;
pub use image::{DecodedImage, KittyImageParser, SixelImageParser, TerminalImage};
