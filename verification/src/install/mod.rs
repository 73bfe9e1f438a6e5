//! The tools that a build uses, and whether it may install them.

pub mod tool;
pub use self::tool::Tool;

use vstd::prelude::*;

verus! {

/// The `InstallMode` determines which mode of initialization we are running, and
/// what install steps we perform.
#[derive(Clone, Copy, Debug, PartialEq, Eq, Structural)]
pub enum InstallMode {
    /// Do not install anything: fail if a tool is missing.
    Noinstall,
    /// Install what is missing.
    Normal,
    /// Install what is missing, and skip the checks before the build.
    Force,
}

impl InstallMode {
    /// Whether this mode lets the build install a tool that is missing:
    /// every mode but `Noinstall` does.
    pub fn install_permitted(self) -> (permitted: bool)
        ensures
            permitted == (self != InstallMode::Noinstall),
    {
        match self {
            InstallMode::Normal => true,
            InstallMode::Force => true,
            InstallMode::Noinstall => false,
        }
    }
}

impl Default for InstallMode {
    fn default() -> (mode: InstallMode)
        ensures
            mode == InstallMode::Normal,
    {
        InstallMode::Normal
    }
}

} // verus!
