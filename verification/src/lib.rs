//! Embeds a compiled WebAssembly module into a JavaScript source file as a
//! stack of base64 chunks, together with the build configuration that
//! surrounds that step.

pub mod bindgen;
pub mod chunks;
pub mod codec;
pub mod command;
pub mod install;
pub mod js_bin;
pub mod manifest;
pub mod progressbar;
pub mod utils;

use crate::progressbar::LogLevel;
use vstd::prelude::*;

verus! {

/// The options of the command line.
pub struct Cli {
    /// The subcommand to run.
    pub cmd: command::Command,
    /// Log verbosity is based off the number of v used
    pub verbosity: u8,
    /// No output printed to stdout
    pub quiet: bool,
    /// The maximum level of messages that should be logged by
    pub log_level: LogLevel,
    /// Sets the location of the binary install cache
    pub install_cache: Option<String>,
}

impl Cli {
    /// The options for `cmd` with nothing else said: not verbose, not quiet,
    /// log level `Info`, no place for the install cache.
    pub fn from_command(cmd: command::Command) -> (cli: Self)
        ensures
            cli.cmd == cmd,
            cli.verbosity == 0,
            !cli.quiet,
            cli.log_level == LogLevel::Info,
            cli.install_cache is None,
    {
        Self { cmd, verbosity: 0, quiet: false, log_level: LogLevel::Info, install_cache: None }
    }
}

} // verus!
