pub mod clipboard;
pub mod config;
pub mod input;
pub mod orchestrator;
pub mod pane;
pub mod renderer;
pub mod terminal;
