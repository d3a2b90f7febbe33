//! The command surface, as plain values: what a parsed command line asks for.
use vstd::prelude::*;

verus! {

/// A parsed command line.
#[derive(Clone, Debug, PartialEq, Eq)]
pub struct Cli {
    /// Disable desktop notifications for this run.
    pub no_notify: bool,
    /// Verbosity: how many times `-v` was given.
    pub verbose: u8,
    pub command: Commands,
}

/// The commands.
#[derive(Clone, Debug, PartialEq, Eq)]
pub enum Commands {
    /// Make muxie the default browser.
    Install {},
    /// Open a URL.
    Open { url: Option<String> },
    /// Daemon-related commands.
    Daemon { command: DaemonCommands },
    /// Remove the desktop integration, optionally restoring the previous
    /// default browser.
    Uninstall { yes: bool, dry_run: bool, restore_default: bool },
    /// Configuration-related commands.
    Config { command: ConfigCommands },
}

/// Configuration-related commands.
#[derive(Clone, Copy, Debug, PartialEq, Eq)]
pub enum ConfigCommands {
    /// Validate the configuration file in strict mode.
    Validate {},
}

/// Daemon-related commands.
#[derive(Clone, Copy, Debug, PartialEq, Eq)]
pub enum DaemonCommands {
    /// Run the daemon in the foreground.
    Run {},
    /// Show whether the daemon is running.
    Status {},
    /// Ask the running daemon to reload its configuration.
    Reload {},
}

} // verus!
