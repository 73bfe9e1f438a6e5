//! The `build` command: its options, and what they decide.

use crate::install::InstallMode;
use crate::js_bin::{document, WasmJsWriter, WriterError};
use crate::manifest::{clone_strings, configured, texts, CrateData};
use crate::utils::{
    append_bytes, os_text, read_and_compress, starts_with, zlib_stream, LineEnding, StrUtils,
};
use vstd::prelude::*;
use vstd::string::*;

verus! {

/// The build profile controls whether optimizations, debug info, and assertions
/// are enabled or disabled.
#[derive(Debug)]
pub enum BuildProfile {
    /// Enable assertions and debug info. Disable optimizations.
    Dev,
    /// Enable optimizations. Disable assertions and debug info.
    Release,
    /// Enable optimizations and debug info. Disable assertions.
    Profiling,
    /// User-defined profile with --profile flag
    Custom(String),
}

/// A build profile, with the name of a custom profile as a text.
pub enum ProfileChoice {
    Dev,
    Release,
    Profiling,
    Custom(Seq<char>),
}

impl View for BuildProfile {
    type V = ProfileChoice;

    open spec fn view(&self) -> ProfileChoice {
        match self {
            BuildProfile::Dev => ProfileChoice::Dev,
            BuildProfile::Release => ProfileChoice::Release,
            BuildProfile::Profiling => ProfileChoice::Profiling,
            BuildProfile::Custom(name) => ProfileChoice::Custom(name@),
        }
    }
}

impl Clone for BuildProfile {
    fn clone(&self) -> (copy: Self)
        ensures
            copy@ == self@,
    {
        match self {
            BuildProfile::Dev => BuildProfile::Dev,
            BuildProfile::Release => BuildProfile::Release,
            BuildProfile::Profiling => BuildProfile::Profiling,
            BuildProfile::Custom(name) => BuildProfile::Custom(name.clone()),
        }
    }
}

/// The profile that the flags `--dev` (or `--debug`), `--release`,
/// `--profiling` and `--profile` choose: release if none is given, the one
/// that is given if it is the only one, and none if two or more are given.
pub open spec fn chosen_profile(
    dev: bool,
    release: bool,
    profiling: bool,
    profile: Option<Seq<char>>,
) -> Option<ProfileChoice> {
    match profile {
        None => if !dev && !profiling {
            Some(ProfileChoice::Release)
        } else if dev && !release && !profiling {
            Some(ProfileChoice::Dev)
        } else if !dev && !release && profiling {
            Some(ProfileChoice::Profiling)
        } else {
            None
        },
        Some(name) => if !dev && !release && !profiling {
            Some(ProfileChoice::Custom(name))
        } else {
            None
        },
    }
}

/// Why a build cannot be set up.
#[derive(Clone, Copy, Debug, PartialEq, Eq, Structural)]
pub enum BuildError {
    /// More than one of the profile flags was given.
    ConflictingProfiles,
}

impl BuildError {
    /// The text of the error.
    pub fn message(&self) -> (text: String)
        ensures
            text@
                == "Can only supply one of the --dev, --release, --profiling, or --profile 'name' flags"@,
    {
        String::from_str(
            "Can only supply one of the --dev, --release, --profiling, or --profile 'name' flags",
        )
    }
}

/// The profile that the profile flags choose, or an error if they
/// contradict each other.
pub fn select_profile(dev: bool, release: bool, profiling: bool, profile: &Option<String>) -> (chosen:
    Result<BuildProfile, BuildError>)
    ensures
        match chosen {
            Ok(p) => chosen_profile(
                dev,
                release,
                profiling,
                match profile {
                    Some(name) => Some(name@),
                    None => None,
                },
            ) == Some(p@),
            Err(e) => e == BuildError::ConflictingProfiles && chosen_profile(
                dev,
                release,
                profiling,
                match profile {
                    Some(name) => Some(name@),
                    None => None,
                },
            ) is None,
        },
{
    match profile {
        None => {
            if !dev && !profiling {
                Ok(BuildProfile::Release)
            } else if dev && !release && !profiling {
                Ok(BuildProfile::Dev)
            } else if !dev && !release && profiling {
                Ok(BuildProfile::Profiling)
            } else {
                Err(BuildError::ConflictingProfiles)
            }
        },
        Some(name) => {
            if !dev && !release && !profiling {
                Ok(BuildProfile::Custom(name.clone()))
            } else {
                Err(BuildError::ConflictingProfiles)
            }
        },
    }
}

/// Everything required to configure and run the build command.
pub struct BuildOptions {
    /// The path to the Rust crate. If not set, searches up the path from the current directory.
    pub path: Option<String>,
    /// The npm scope to use in package.json, if any.
    pub scope: Option<String>,
    /// Sets steps to be run. [possible values: no-install, normal, force]
    pub mode: InstallMode,
    /// By default a *.d.ts file is generated for the generated JS file, but
    /// this flag will disable generating this TypeScript file.
    pub disable_dts: bool,
    /// Enable usage of the JS weak references proposal.
    pub weak_refs: bool,
    /// Enable usage of WebAssembly reference types.
    pub reference_types: bool,
    /// Deprecated. Renamed to `--dev`.
    pub debug: bool,
    /// Create a development build. Enable debug info, and disable
    /// optimizations.
    pub dev: bool,
    /// Create a release build. Enable optimizations and disable debug info.
    pub release: bool,
    /// Create a profiling build. Enable optimizations and debug info.
    pub profiling: bool,
    /// User-defined profile with --profile flag
    pub profile: Option<String>,
    /// Sets the output directory with a relative path.
    pub out_dir: String,
    /// Sets the output file names. Defaults to package name.
    pub out_name: Option<String>,
    /// Option to skip optimization with wasm-opt
    pub no_opt: bool,
    /// List of extra options to pass to `cargo build`
    pub extra_options: Vec<String>,
}

/// Where the crate is said to be, and the options that go to cargo.
pub struct BuildRequest {
    /// The path that was given for the crate, if one was.
    pub path: Option<String>,
    /// The options for `cargo build`.
    pub extra_options: Vec<String>,
}

/// A build request, with its strings as texts.
pub struct RequestTexts {
    pub path: Option<Seq<char>>,
    pub extra_options: Seq<Seq<char>>,
}

impl View for BuildRequest {
    type V = RequestTexts;

    open spec fn view(&self) -> RequestTexts {
        RequestTexts {
            path: match self.path {
                Some(p) => Some(p@),
                None => None,
            },
            extra_options: texts(self.extra_options@),
        }
    }
}

impl Default for BuildOptions {
    fn default() -> (options: Self)
        ensures
            options.path is None,
            options.scope is None,
            options.mode == InstallMode::Normal,
            !options.disable_dts,
            !options.weak_refs,
            !options.reference_types,
            !options.debug,
            !options.dev,
            !options.no_opt,
            !options.release,
            !options.profiling,
            options.profile is None,
            options.out_dir@ == Seq::<char>::empty(),
            options.out_name is None,
            options.extra_options@ == Seq::<String>::empty(),
    {
        Self {
            path: None,
            scope: None,
            mode: InstallMode::Normal,
            disable_dts: false,
            weak_refs: false,
            reference_types: false,
            debug: false,
            dev: false,
            no_opt: false,
            release: false,
            profiling: false,
            profile: None,
            out_dir: String::new(),
            out_name: None,
            extra_options: Vec::new(),
        }
    }
}

impl BuildOptions {
    /// What these options ask for. A path that begins with `--` is no path
    /// but the first option for cargo: then no path was given.
    pub open spec fn request(self) -> RequestTexts {
        match self.path {
            Some(p) => if "--"@.is_prefix_of(p@) {
                RequestTexts { path: None, extra_options: seq![p@] + texts(self.extra_options@) }
            } else {
                RequestTexts { path: Some(p@), extra_options: texts(self.extra_options@) }
            },
            None => RequestTexts { path: None, extra_options: texts(self.extra_options@) },
        }
    }

    /// What these options ask for: see `request`.
    pub fn to_request(&self) -> (request: BuildRequest)
        ensures
            request@ == self.request(),
    {
        let mut extra_options = clone_strings(&self.extra_options);
        match &self.path {
            Some(p) => {
                if starts_with(p.as_str(), "--") {
                    extra_options.insert(0, p.clone());
                    assert(texts(extra_options@) =~= seq![p@] + texts(self.extra_options@));
                    BuildRequest { path: None, extra_options }
                } else {
                    BuildRequest { path: Some(p.clone()), extra_options }
                }
            },
            None => BuildRequest { path: None, extra_options },
        }
    }

    /// The profile that these options choose, or an error if they name
    /// more than one. `--debug` counts as `--dev`.
    pub fn profile(&self) -> (chosen: Result<BuildProfile, BuildError>)
        ensures
            match chosen {
                Ok(p) => self.chosen() == Some(p@),
                Err(e) => e == BuildError::ConflictingProfiles && self.chosen() is None,
            },
    {
        select_profile(self.dev || self.debug, self.release, self.profiling, &self.profile)
    }

    /// The profile that these options choose, if they choose one.
    pub open spec fn chosen(self) -> Option<ProfileChoice> {
        chosen_profile(
            self.dev || self.debug,
            self.release,
            self.profiling,
            match self.profile {
                Some(name) => Some(name@),
                None => None,
            },
        )
    }
}

/// One step of a build.
#[derive(Clone, Copy, Debug, PartialEq, Eq, Structural)]
pub enum BuildStep {
    CheckRustcVersion,
    CheckCrateConfig,
    CheckForWasmTarget,
    BuildWasm,
    CreateDir,
    InstallWasmBindgen,
    RunWasmBindgen,
    RunWasmOpt,
    TransformWasm,
}

/// The steps of a build in their order. The three checks are left out in
/// mode `Force`, and wasm-opt where it is switched off.
pub open spec fn build_steps(mode: InstallMode, no_opt: bool) -> Seq<BuildStep> {
    (if mode != InstallMode::Force {
        seq![
            BuildStep::CheckRustcVersion,
            BuildStep::CheckCrateConfig,
            BuildStep::CheckForWasmTarget,
        ]
    } else {
        Seq::empty()
    }) + seq![
        BuildStep::BuildWasm,
        BuildStep::CreateDir,
        BuildStep::InstallWasmBindgen,
        BuildStep::RunWasmBindgen,
    ] + (if !no_opt {
        seq![BuildStep::RunWasmOpt]
    } else {
        Seq::empty()
    }) + seq![BuildStep::TransformWasm]
}

/// The names of the files that a build reads and writes, for output files
/// that begin with `prefix`.
pub struct OutputFiles {
    /// The module that wasm-bindgen wrote: `<prefix>_bg.wasm`.
    pub wasm_filename: String,
    /// The imports that wasm-bindgen wrote: `<prefix>_bg.js`.
    pub imports_filename: String,
    /// The type declarations: `<prefix>.d.ts`.
    pub types_filename: String,
    /// The module that holds the chunks: `<prefix>.js`.
    pub module_filename: String,
    /// The imports as the module imports them: `./<prefix>_bg.js`.
    pub imports_module: String,
}

fn with_affixes(before: &str, name: &str, after: &str) -> (text: String)
    ensures
        text@ == before@ + name@ + after@,
{
    let mut text = String::from_str(before);
    text.append(name);
    text.append(after);
    text
}

/// The names of the files for output files that begin with `name_prefix`.
pub fn output_files(name_prefix: &str) -> (files: OutputFiles)
    ensures
        files.wasm_filename@ == name_prefix@ + "_bg.wasm"@,
        files.imports_filename@ == name_prefix@ + "_bg.js"@,
        files.types_filename@ == name_prefix@ + ".d.ts"@,
        files.module_filename@ == name_prefix@ + ".js"@,
        files.imports_module@ == "./"@ + name_prefix@ + "_bg.js"@,
{
    let files = OutputFiles {
        wasm_filename: with_affixes("", name_prefix, "_bg.wasm"),
        imports_filename: with_affixes("", name_prefix, "_bg.js"),
        types_filename: with_affixes("", name_prefix, ".d.ts"),
        module_filename: with_affixes("", name_prefix, ".js"),
        imports_module: with_affixes("./", name_prefix, "_bg.js"),
    };
    proof {
        reveal_strlit("");
        assert(""@ + name_prefix@ =~= name_prefix@);
    }
    files
}

/// What stands before the type declarations of wasm-bindgen.
pub const TYPES_PROLOG: &'static str =
    "/* tslint:disable */\n/* eslint-disable */\ndeclare namespace WasmDecls {\n";

/// What stands after the type declarations of wasm-bindgen.
pub const TYPES_EPILOG: &'static str =
    "\n}\nexport type WasmExports = typeof WasmDecls;\nexport function getWasm(): Promise<typeof WasmExports>;\n";

/// The type declarations of the module: those of wasm-bindgen, as they are,
/// inside a namespace, and the declaration of `getWasm`.
pub fn wrap_type_declarations(types_text: &[u8], line_ending: LineEnding) -> (wrapped: Vec<u8>)
    ensures
        wrapped@ == os_text(TYPES_PROLOG@, line_ending) + types_text@ + os_text(
            TYPES_EPILOG@,
            line_ending,
        ),
{
    let mut wrapped = TYPES_PROLOG.to_os_bytes(line_ending);
    append_bytes(&mut wrapped, types_text);
    let epilog = TYPES_EPILOG.to_os_bytes(line_ending);
    append_bytes(&mut wrapped, epilog.as_slice());
    wrapped
}

/// Converts the module `wasm` to the source of a JS module that imports
/// `imports_module`: compresses it, and writes the compressed stream as a
/// finished document. Succeeds exactly when the compressor takes `wasm`.
pub fn embed_wasm(wasm: &[u8], imports_module: &str, line_ending: LineEnding) -> (source: Result<
    Vec<u8>,
    WriterError,
>)
    ensures
        source is Ok <==> zlib_stream(wasm@) is Some,
        match source {
            Ok(bytes) => bytes@ == document(imports_module@, line_ending, zlib_stream(wasm@)->0),
            Err(e) => e == WriterError::Io,
        },
{
    let mut wasm_writer = WasmJsWriter::new(imports_module, line_ending);
    match read_and_compress(&mut wasm_writer, wasm) {
        Ok(_) => {},
        Err(e) => {
            return Err(e);
        },
    }
    match wasm_writer.flush() {
        Ok(_) => {},
        Err(e) => {
            return Err(e);
        },
    }
    assert(Seq::<u8>::empty() + zlib_stream(wasm@)->0 =~= zlib_stream(wasm@)->0);
    let bytes = wasm_writer.take_output();
    assert(bytes@ =~= wasm_writer@.text());
    Ok(bytes)
}

/// What is added to the error of wasm-opt.
pub const WASM_OPT_HINT: &'static str =
    "\nTo disable `wasm-opt`, add `wasm-opt = false` to your package metadata in your `Cargo.toml`.";

/// The error of a wasm-opt run: what went wrong, and how to switch
/// wasm-opt off.
pub fn wasm_opt_failure(error: &str) -> (text: String)
    ensures
        text@ == error@ + WASM_OPT_HINT@,
{
    let mut text = String::from_str(error);
    text.append(WASM_OPT_HINT);
    text
}

/// Everything required to configure and run the `wasm-js build` command.
pub struct Build {
    pub crate_path: String,
    pub crate_data: CrateData,
    pub scope: Option<String>,
    pub disable_dts: bool,
    pub weak_refs: bool,
    pub reference_types: bool,
    pub no_opt: bool,
    pub profile: BuildProfile,
    pub mode: InstallMode,
    pub out_dir: String,
    pub out_name: Option<String>,
    pub extra_options: Vec<String>,
}

fn clone_option(text: &Option<String>) -> (copy: Option<String>)
    ensures
        copy == *text,
{
    match text {
        Some(t) => Some(t.clone()),
        None => None,
    }
}

impl Build {
    /// Construct a build command from the given options, for the crate at
    /// `crate_path` with the data `crate_data`, the output directory
    /// `out_dir` and the options `extra_options` for cargo. Fails if the
    /// options name more than one profile.
    pub fn try_from_opts(
        build_opts: &BuildOptions,
        crate_path: String,
        crate_data: CrateData,
        out_dir: String,
        extra_options: Vec<String>,
    ) -> (result: Result<Build, BuildError>)
        ensures
            match result {
                Ok(build) => {
                    &&& build_opts.chosen() == Some(build.profile@)
                    &&& build.crate_path == crate_path
                    &&& build.crate_data == crate_data
                    &&& build.scope == build_opts.scope
                    &&& build.disable_dts == build_opts.disable_dts
                    &&& build.weak_refs == build_opts.weak_refs
                    &&& build.reference_types == build_opts.reference_types
                    &&& build.no_opt == build_opts.no_opt
                    &&& build.mode == build_opts.mode
                    &&& build.out_dir == out_dir
                    &&& build.out_name == build_opts.out_name
                    &&& build.extra_options == extra_options
                },
                Err(e) => e == BuildError::ConflictingProfiles && build_opts.chosen() is None,
            },
    {
        let profile = match build_opts.profile() {
            Ok(profile) => profile,
            Err(e) => {
                return Err(e);
            },
        };
        Ok(
            Build {
                crate_path,
                crate_data,
                scope: clone_option(&build_opts.scope),
                disable_dts: build_opts.disable_dts,
                weak_refs: build_opts.weak_refs,
                reference_types: build_opts.reference_types,
                no_opt: build_opts.no_opt,
                profile,
                mode: build_opts.mode,
                out_dir,
                out_name: clone_option(&build_opts.out_name),
                extra_options,
            },
        )
    }

    /// The steps of this build, in the order in which they run.
    pub fn run(&self) -> (steps: Vec<BuildStep>)
        ensures
            steps@ == build_steps(self.mode, self.no_opt),
    {
        let mut steps: Vec<BuildStep> = Vec::new();
        if self.mode != InstallMode::Force {
            steps.push(BuildStep::CheckRustcVersion);
            steps.push(BuildStep::CheckCrateConfig);
            steps.push(BuildStep::CheckForWasmTarget);
        }
        steps.push(BuildStep::BuildWasm);
        steps.push(BuildStep::CreateDir);
        steps.push(BuildStep::InstallWasmBindgen);
        steps.push(BuildStep::RunWasmBindgen);
        if !self.no_opt {
            steps.push(BuildStep::RunWasmOpt);
        }
        steps.push(BuildStep::TransformWasm);
        assert(steps@ =~= build_steps(self.mode, self.no_opt));
        steps
    }

    /// The arguments with which wasm-opt runs in this build: those of the
    /// profile, and `--enable-reference-types` where reference types are
    /// used; `None` if the profile switches wasm-opt off.
    pub fn step_run_wasm_opt(&self) -> (args: Option<Vec<String>>)
        ensures
            match args {
                Some(list) => configured(
                    self.crate_data.cargo_manifest(),
                    self.profile@,
                )@.wasm_opt_args() matches Some(of_profile) && texts(list@) == of_profile
                    + crate::bindgen::flag(self.reference_types, "--enable-reference-types"@),
                None => configured(
                    self.crate_data.cargo_manifest(),
                    self.profile@,
                )@.wasm_opt_args() is None,
            },
    {
        let mut args = match self.crate_data.configured_profile(
            self.profile.clone(),
        ).wasm_opt_args() {
            Some(args) => args,
            None => {
                return None;
            },
        };
        let ghost of_profile = texts(args@);
        if self.reference_types {
            args.push(String::from_str("--enable-reference-types"));
        }
        assert(texts(args@) =~= of_profile + crate::bindgen::flag(
            self.reference_types,
            "--enable-reference-types"@,
        ));
        Some(args)
    }
}

} // verus!
