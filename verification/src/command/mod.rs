//! CLI command structures, parsing, and execution.

pub mod build;

use self::build::{BuildOptions, BuildRequest};
use crate::Cli;
use vstd::prelude::*;

verus! {

/// The subcommands of the tool.
pub enum Command {
    /// build your npm package!
    Build(BuildOptions),
}

/// Says what the command of `args` asks for: for a build, where the crate
/// is and which options go to cargo.
pub fn run_command(args: &Cli) -> (request: BuildRequest)
    ensures
        match args.cmd {
            Command::Build(options) => request@ == options.request(),
        },
{
    match &args.cmd {
        Command::Build(build_opts) => build_opts.to_request(),
    }
}

} // verus!
