//! The configuration data model and its documented defaults. Reading and
//! writing the configuration file is the surrounding program's business;
//! the library only fixes the shape of the data, the default for every
//! field, and where the file lives.

use vstd::prelude::*;
use vstd::string::StringExecFns;

verus! {

/// The color theme the interface paints with. Anything but `Dark` or
/// `Light` collapses to `Dark` when the theme is toggled.
#[derive(Debug, Clone, Copy, PartialEq, Eq, Structural)]
pub enum ThemeMode {
    Dark,
    Light,
    System,
    Auto,
}

/// General settings.
#[derive(Debug, Clone)]
pub struct GeneralConfig {
    pub theme: ThemeMode,
    pub history_size: usize,
}

/// Auto-update settings.
#[derive(Debug, Clone)]
pub struct UpdateConfig {
    pub channel: String,
    pub check_on_startup: bool,
    pub check_in_background: bool,
    pub prompt_before_update: bool,
}

/// Interface settings.
#[derive(Debug, Clone)]
pub struct UiConfig {
    pub show_system_tray: bool,
    pub remember_window_position: bool,
    pub default_color_format: String,
}

/// The whole configuration: the three sections and the color history.
#[derive(Debug, Clone)]
pub struct Config {
    pub general: GeneralConfig,
    pub updates: UpdateConfig,
    pub ui: UiConfig,
    pub color_history: Vec<String>,
}

/// The default theme.
pub fn default_theme() -> (t: ThemeMode)
    ensures
        t == ThemeMode::Dark,
{
    ThemeMode::Dark
}

/// The default number of history entries kept.
pub fn default_history_size() -> (n: usize)
    ensures
        n == 20,
{
    20
}

/// The default update channel.
pub fn default_channel() -> (s: String)
    ensures
        s@ == "stable"@,
{
    String::from_str("stable")
}

/// The default for the boolean settings, which all start enabled.
pub fn default_true() -> (b: bool)
    ensures
        b,
{
    true
}

/// The default color format shown first.
pub fn default_format() -> (s: String)
    ensures
        s@ == "hex"@,
{
    String::from_str("hex")
}

impl Default for GeneralConfig {
    /// Dark theme, twenty history entries.
    fn default() -> (c: GeneralConfig)
        ensures
            c.theme == ThemeMode::Dark,
            c.history_size == 20,
    {
        GeneralConfig { theme: default_theme(), history_size: default_history_size() }
    }
}

impl Default for UpdateConfig {
    /// The stable channel with every check enabled.
    fn default() -> (c: UpdateConfig)
        ensures
            c.channel@ == "stable"@,
            c.check_on_startup,
            c.check_in_background,
            c.prompt_before_update,
    {
        UpdateConfig {
            channel: default_channel(),
            check_on_startup: true,
            check_in_background: true,
            prompt_before_update: true,
        }
    }
}

impl Default for UiConfig {
    /// Tray and window memory on, hex shown first.
    fn default() -> (c: UiConfig)
        ensures
            c.show_system_tray,
            c.remember_window_position,
            c.default_color_format@ == "hex"@,
    {
        UiConfig {
            show_system_tray: true,
            remember_window_position: true,
            default_color_format: default_format(),
        }
    }
}

impl Default for Config {
    /// Every section at its defaults and an empty history.
    fn default() -> (c: Config)
        ensures
            c.general.theme == ThemeMode::Dark,
            c.general.history_size == 20,
            c.updates.channel@ == "stable"@,
            c.updates.check_on_startup,
            c.updates.check_in_background,
            c.updates.prompt_before_update,
            c.ui.show_system_tray,
            c.ui.remember_window_position,
            c.ui.default_color_format@ == "hex"@,
            c.color_history@.len() == 0,
    {
        Config {
            general: GeneralConfig::default(),
            updates: UpdateConfig::default(),
            ui: UiConfig::default(),
            color_history: Vec::new(),
        }
    }
}

/// Relies on dirs::config_dir: the platform configuration directory
/// rendered as a string, or `None` where the platform defines none.
#[verifier::external_body]
fn config_base_dir() -> (r: Option<String>) {
    dirs::config_dir().map(|p| p.display().to_string())
}

impl Config {
    /// Where the configuration file lives: the platform configuration
    /// directory plus `casapps/cascolor/config.toml`, or `Unknown` where no
    /// such directory exists.
    pub fn config_path_string() -> (s: String)
        ensures
            s@ == "Unknown"@ || s@.len() >= 29 && s@.skip(s@.len() - 29)
                == "/casapps/cascolor/config.toml"@,
    {
        match config_base_dir() {
            Some(base) => {
                let s = base.concat("/casapps/cascolor/config.toml");
                proof {
                    reveal_strlit("/casapps/cascolor/config.toml");
                    assert(s@.skip(s@.len() - 29) =~= "/casapps/cascolor/config.toml"@);
                }
                s
            },
            None => String::from_str("Unknown"),
        }
    }
}

} // verus!
