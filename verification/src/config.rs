pub mod types;

pub use types::{Config, RendererConfig, StartupConfig, TerminalConfig, WindowConfig};
