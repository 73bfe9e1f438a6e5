//! The command-line tools that a build runs.

use vstd::prelude::*;
use vstd::string::*;

verus! {

/// Represents the set of CLI tools we use
#[derive(Clone, Copy, Debug, PartialEq, Eq, Structural)]
pub enum Tool {
    /// cargo-generate CLI tool
    CargoGenerate,
    /// wasm-bindgen CLI tools
    WasmBindgen,
    /// wasm-opt CLI tool
    WasmOpt,
}

impl Tool {
    /// The name of the tool's binary.
    pub open spec fn name(self) -> Seq<char> {
        match self {
            Tool::CargoGenerate => "cargo-generate"@,
            Tool::WasmBindgen => "wasm-bindgen"@,
            Tool::WasmOpt => "wasm-opt"@,
        }
    }

    /// The name of the tool's binary.
    pub fn to_string(&self) -> (name: String)
        ensures
            name@ == self.name(),
    {
        let s = match self {
            Tool::CargoGenerate => "cargo-generate",
            Tool::WasmBindgen => "wasm-bindgen",
            Tool::WasmOpt => "wasm-opt",
        };
        String::from_str(s)
    }
}

} // verus!
