//! Configuration of the dashboard: terminal-multiplexer mode, notification
//! sounds per status, and the colour theme. Reading and writing the
//! configuration file is the caller's concern; this module owns the values
//! and their defaults.

use vstd::prelude::*;

verus! {

/// Which sound, by name, each attention-needing status triggers.
#[derive(Debug)]
pub struct SoundsConfig {
    pub enabled: bool,
    pub awaiting_input: String,
    pub awaiting_approval: String,
    pub error: String,
    pub idle: String,
    pub closed: String,
}

impl Default for SoundsConfig {
    fn default() -> (r: Self)
        ensures
            r.enabled == true,
            r.awaiting_input@ == "tap"@,
            r.awaiting_approval@ == "bell"@,
            r.error@ == "error"@,
            r.idle@ == "pop"@,
            r.closed@ == "none"@,
    {
        SoundsConfig {
            enabled: true,
            awaiting_input: String::from_str("tap"),
            awaiting_approval: String::from_str("bell"),
            error: String::from_str("error"),
            idle: String::from_str("pop"),
            closed: String::from_str("none"),
        }
    }
}

/// The colour theme, by name.
#[derive(Debug)]
pub struct ThemeConfig {
    pub name: String,
}

impl Default for ThemeConfig {
    fn default() -> (r: Self)
        ensures
            r.name@ == "textual-dark"@,
    {
        ThemeConfig { name: String::from_str("textual-dark") }
    }
}

/// The dashboard's configuration.
#[derive(Debug)]
pub struct Config {
    pub tmux_mode: bool,
    pub minimal_mode: bool,
    pub sounds: SoundsConfig,
    pub theme: ThemeConfig,
}

impl Default for Config {
    fn default() -> (r: Self)
        ensures
            r.tmux_mode == false,
            r.minimal_mode == false,
            r.sounds.enabled == true,
            r.sounds.awaiting_input@ == "tap"@,
            r.sounds.awaiting_approval@ == "bell"@,
            r.sounds.error@ == "error"@,
            r.sounds.idle@ == "pop"@,
            r.sounds.closed@ == "none"@,
            r.theme.name@ == "textual-dark"@,
    {
        Config {
            tmux_mode: false,
            minimal_mode: false,
            sounds: SoundsConfig::default(),
            theme: ThemeConfig::default(),
        }
    }
}

/// Credentials for the summarization collaborator.
#[derive(Debug)]
pub struct AuthConfig {
    pub anthropic_api_key: String,
}

} // verus!
