//! How much of what happens is told to the user.

use vstd::prelude::*;

verus! {

/// The maximum log level for output to the user.
#[derive(Clone, Copy, Debug, PartialEq, Eq, Structural)]
pub enum LogLevel {
    /// Logs only error
    Error,
    /// Logs only warn and error
    Warn,
    /// Logs everything
    Info,
}

} // verus!
