use vstd::prelude::*;

verus! {

/// The whole configuration.
#[derive(Debug, Clone)]
pub struct Config {
    pub renderer: RendererConfig,
    pub terminal: TerminalConfig,
    pub window: WindowConfig,
    pub startup: StartupConfig,
}

#[derive(Debug, Clone)]
pub struct RendererConfig {
    /// Backend selection: "auto", "gpu", or "cpu"
    pub backend: String,
    /// Target FPS
    pub target_fps: u32,
}

#[derive(Debug, Clone)]
pub struct TerminalConfig {
    /// Number of columns
    pub cols: usize,
    /// Number of rows
    pub rows: usize,
    /// Font size, in thousandths of a pixel
    pub font_size: u32,
    /// Font family
    pub font_family: String,
    /// Scrollback buffer size
    pub scrollback: usize,
    /// Shell command to execute
    pub shell: String,
}

#[derive(Debug, Clone)]
pub struct WindowConfig {
    /// Window title
    pub title: String,
    /// Initial window width
    pub width: u32,
    /// Initial window height
    pub height: u32,
    /// Maximize window on startup
    pub maximize: bool,
}

#[derive(Debug, Clone)]
pub struct StartupConfig {
    /// Number of panes to create on startup (1, 2, or 4)
    pub panes: usize,
    /// Layout type: "single", "horizontal", "vertical", "grid"
    pub layout: String,
    /// Share of the first pane of a horizontal split, in millionths
    pub split_ratio: u32,
    /// Share of the first pane of a vertical split, in millionths
    pub vertical_ratio: u32,
}

pub fn default_backend() -> (backend: String)
    ensures
        backend@ == "auto"@,
{
    "auto".to_string()
}

pub fn default_target_fps() -> (fps: u32)
    ensures
        fps == 60,
{
    60
}

pub fn default_cols() -> (cols: usize)
    ensures
        cols == 80,
{
    80
}

pub fn default_rows() -> (rows: usize)
    ensures
        rows == 24,
{
    24
}

/// Fourteen pixels, in thousandths of a pixel.
pub fn default_font_size() -> (size: u32)
    ensures
        size == 14000,
{
    14000
}

pub fn default_font_family() -> (family: String)
    ensures
        family@ == "monospace"@,
{
    "monospace".to_string()
}

pub fn default_scrollback() -> (lines: usize)
    ensures
        lines == 10000,
{
    10000
}

/// The shell to run: the one that the environment names, else `/bin/bash`.
pub fn default_shell(from_environment: Option<String>) -> (shell: String)
    ensures
        shell@ == match from_environment {
            Some(named) => named@,
            None => "/bin/bash"@,
        },
{
    match from_environment {
        Some(named) => named,
        None => "/bin/bash".to_string(),
    }
}

pub fn default_title() -> (title: String)
    ensures
        title@ == "terbulator"@,
{
    "terbulator".to_string()
}

pub fn default_width() -> (width: u32)
    ensures
        width == 800,
{
    800
}

pub fn default_height() -> (height: u32)
    ensures
        height == 600,
{
    600
}

pub fn default_maximize() -> (maximize: bool)
    ensures
        maximize,
{
    true
}

pub fn default_panes() -> (panes: usize)
    ensures
        panes == 4,
{
    4
}

pub fn default_layout() -> (layout: String)
    ensures
        layout@ == "grid"@,
{
    "grid".to_string()
}

/// Seven tenths, in millionths.
pub fn default_split_ratio() -> (ratio: u32)
    ensures
        ratio == 700000,
{
    700000
}

/// One half, in millionths.
pub fn default_vertical_ratio() -> (ratio: u32)
    ensures
        ratio == 500000,
{
    500000
}

impl Default for RendererConfig {
    fn default() -> (config: Self)
        ensures
            config.backend@ == "auto"@,
            config.target_fps == 60,
    {
        RendererConfig { backend: default_backend(), target_fps: default_target_fps() }
    }
}

impl TerminalConfig {
    /// The default terminal settings with the given shell.
    pub fn with_shell(shell: String) -> (config: TerminalConfig)
        ensures
            config.cols == 80,
            config.rows == 24,
            config.font_size == 14000,
            config.font_family@ == "monospace"@,
            config.scrollback == 10000,
            config.shell == shell,
    {
        TerminalConfig {
            cols: default_cols(),
            rows: default_rows(),
            font_size: default_font_size(),
            font_family: default_font_family(),
            scrollback: default_scrollback(),
            shell,
        }
    }
}

impl Default for WindowConfig {
    fn default() -> (config: Self)
        ensures
            config.title@ == "terbulator"@,
            config.width == 800,
            config.height == 600,
            config.maximize,
    {
        WindowConfig {
            title: default_title(),
            width: default_width(),
            height: default_height(),
            maximize: default_maximize(),
        }
    }
}

impl Default for StartupConfig {
    fn default() -> (config: Self)
        ensures
            config.panes == 4,
            config.layout@ == "grid"@,
            config.split_ratio == 700000,
            config.vertical_ratio == 500000,
    {
        StartupConfig {
            panes: default_panes(),
            layout: default_layout(),
            split_ratio: default_split_ratio(),
            vertical_ratio: default_vertical_ratio(),
        }
    }
}

impl Config {
    /// The default configuration with the given shell.
    pub fn with_shell(shell: String) -> (config: Config)
        ensures
            config.renderer.backend@ == "auto"@,
            config.renderer.target_fps == 60,
            config.terminal.cols == 80,
            config.terminal.rows == 24,
            config.terminal.font_size == 14000,
            config.terminal.font_family@ == "monospace"@,
            config.terminal.scrollback == 10000,
            config.terminal.shell == shell,
            config.window.title@ == "terbulator"@,
            config.window.width == 800,
            config.window.height == 600,
            config.window.maximize,
            config.startup.panes == 4,
            config.startup.layout@ == "grid"@,
            config.startup.split_ratio == 700000,
            config.startup.vertical_ratio == 500000,
    {
        Config {
            renderer: RendererConfig::default(),
            terminal: TerminalConfig::with_shell(shell),
            window: WindowConfig::default(),
            startup: StartupConfig::default(),
        }
    }
}

} // verus!
