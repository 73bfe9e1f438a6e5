//! Functionality related to running `wasm-bindgen`: its arguments, and what
//! its version decides.

use crate::command::build::{BuildProfile, ProfileChoice};
use crate::manifest::{texts, CrateData, ProfileSettings};
use vstd::prelude::*;
use vstd::string::*;

verus! {

/// The error of `semver`.
#[verifier::external_type_specification]
#[verifier::external_body]
pub struct ExSemverError(semver::Error);

/// A version of the `wasm-bindgen` CLI, as far as its order against a
/// release is concerned: the three numbers, and the pre-release tag, which
/// is empty for a release.
pub struct CliVersion {
    pub major: u64,
    pub minor: u64,
    pub patch: u64,
    pub pre: String,
}

/// What `semver` reads in `text`: the three numbers and the pre-release tag
/// of the version, or `None` if `text` is no version.
pub uninterp spec fn parsed_version(text: Seq<char>) -> Option<(u64, u64, u64, Seq<char>)>;

/// Calls `semver::Version::parse` and hands out the numbers and the
/// pre-release tag of the version. The contract names what the call reads,
/// which depends on `text` alone.
#[verifier::external_body]
fn parse_version(text: &str) -> (parsed: Result<CliVersion, semver::Error>)
    ensures
        match parsed {
            Ok(v) => parsed_version(text@) == Some((v.major, v.minor, v.patch, v.pre@)),
            Err(_) => parsed_version(text@) is None,
        },
{
    match semver::Version::parse(text) {
        Ok(v) => Ok(
            CliVersion {
                major: v.major,
                minor: v.minor,
                patch: v.patch,
                pre: v.pre.as_str().to_string(),
            },
        ),
        Err(e) => Err(e),
    }
}

/// Calls `to_string` on an error of `semver`. The contract says nothing of
/// the text.
#[verifier::external_body]
fn error_text(error: &semver::Error) -> (text: String) {
    error.to_string()
}

/// A version text that `semver` does not take for a version.
pub struct VersionError {
    /// What `semver` says of the text.
    pub message: String,
}

/// Whether a version is `0.2.40` or a later one, in the order of versions:
/// the numbers count from the left, and a pre-release comes before its
/// release. `0.2.40` is the first version of the `wasm-bindgen` CLI that
/// takes `--target`.
pub open spec fn has_target_flag(major: u64, minor: u64, patch: u64, pre: Seq<char>) -> bool {
    major > 0 || minor > 2 || (minor == 2 && (patch > 40 || (patch == 40 && pre.len() == 0)))
}

impl CliVersion {
    /// Whether a `wasm-bindgen` CLI of this version takes the `--target`
    /// flag: the version must be `0.2.40` at least.
    pub fn supports_target(&self) -> (supported: bool)
        ensures
            supported == has_target_flag(self.major, self.minor, self.patch, self.pre@),
    {
        self.major > 0 || self.minor > 2 || (self.minor == 2 && (self.patch > 40 || (self.patch
            == 40 && self.pre.as_str().is_empty())))
    }
}

/// Check if the `wasm-bindgen` CLI of version `cli_version` takes the
/// `--target` flag: its version must be `0.2.40` at least. Fails exactly
/// when `cli_version` is no version.
pub fn supports_dash_dash_target(cli_version: &str) -> (supported: Result<bool, VersionError>)
    ensures
        match supported {
            Ok(yes) => parsed_version(cli_version@) matches Some(v) && yes == has_target_flag(
                v.0,
                v.1,
                v.2,
                v.3,
            ),
            Err(_) => parsed_version(cli_version@) is None,
        },
{
    match parse_version(cli_version) {
        Ok(version) => Ok(version.supports_target()),
        Err(e) => Err(VersionError { message: error_text(&e) }),
    }
}

/// The argument that names the target: `bundler` for a CLI that takes
/// `--target`, `--browser` for one that does not.
pub fn target_arg(supports_target: bool) -> (arg: String)
    ensures
        arg@ == if supports_target {
            "bundler"@
        } else {
            "--browser"@
        },
{
    if !supports_target {
        String::from_str("--browser")
    } else {
        String::from_str("bundler")
    }
}

/// The argument that names the target for the `wasm-bindgen` CLI of
/// version `cli_version`: `bundler` from `0.2.40` on, `--browser` before.
/// Fails exactly when `cli_version` is no version.
pub fn build_target_arg(cli_version: &str) -> (arg: Result<String, VersionError>)
    ensures
        match arg {
            Ok(text) => parsed_version(cli_version@) matches Some(v) && text@ == if has_target_flag(
                v.0,
                v.1,
                v.2,
                v.3,
            ) {
                "bundler"@
            } else {
                "--browser"@
            },
            Err(_) => parsed_version(cli_version@) is None,
        },
{
    match supports_dash_dash_target(cli_version) {
        Ok(supported) => Ok(target_arg(supported)),
        Err(e) => Err(e),
    }
}

/// The directory under `wasm32-unknown-unknown` in which cargo puts what it
/// builds with a profile.
pub open spec fn profile_dir(profile: ProfileChoice) -> Seq<char> {
    match profile {
        ProfileChoice::Release => "release"@,
        ProfileChoice::Profiling => "release"@,
        ProfileChoice::Dev => "debug"@,
        ProfileChoice::Custom(name) => name,
    }
}

/// The directory under `wasm32-unknown-unknown` in which cargo puts what it
/// builds with `profile`.
pub fn profile_dir_name(profile: &BuildProfile) -> (name: String)
    ensures
        name@ == profile_dir(profile@),
{
    match profile {
        BuildProfile::Release => String::from_str("release"),
        BuildProfile::Profiling => String::from_str("release"),
        BuildProfile::Dev => String::from_str("debug"),
        BuildProfile::Custom(profile_name) => profile_name.clone(),
    }
}

/// The option that follows the first `--target-dir` among `options`, if
/// there is a `--target-dir` and something follows it.
pub open spec fn target_dir_option(options: Seq<Seq<char>>) -> Option<Seq<char>>
    decreases options.len(),
{
    if options.len() == 0 {
        None
    } else if options[0] == "--target-dir"@ {
        if options.len() >= 2 {
            Some(options[1])
        } else {
            None
        }
    } else {
        target_dir_option(options.drop_first())
    }
}

/// The target directory that the options for cargo name, if they name one.
pub fn target_dir_override(extra_options: &Vec<String>) -> (dir: Option<String>)
    ensures
        match dir {
            Some(d) => target_dir_option(texts(extra_options@)) == Some(d@),
            None => target_dir_option(texts(extra_options@)) is None,
        },
{
    let flag = String::from_str("--target-dir");
    let ghost all = texts(extra_options@);
    let mut i: usize = 0;
    assert(all.skip(0) =~= all);
    while i < extra_options.len()
        invariant
            i <= extra_options.len(),
            all == texts(extra_options@),
            flag@ == "--target-dir"@,
            target_dir_option(all) == target_dir_option(all.skip(i as int)),
        decreases extra_options.len() - i,
    {
        let ghost rest = all.skip(i as int);
        assert(rest[0] == extra_options@[i as int]@);
        if extra_options[i] == flag {
            if i + 1 < extra_options.len() {
                assert(rest[1] == extra_options@[i + 1]@);
                return Some(extra_options[i + 1].clone());
            } else {
                return None;
            }
        }
        assert(rest.drop_first() =~= all.skip(i + 1));
        i += 1;
    }
    assert(all.skip(i as int).len() == 0);
    None
}

/// `[arg]` if `on`, nothing otherwise.
pub open spec fn flag(on: bool, arg: Seq<char>) -> Seq<Seq<char>> {
    if on {
        seq![arg]
    } else {
        Seq::empty()
    }
}

/// The arguments for the `wasm-bindgen` CLI: the module, the output
/// directory and `--typescript`; then, each only where it applies,
/// `--weak-refs`, `--reference-types`, the target, the output name, and the
/// switches of the profile.
pub open spec fn bindgen_args(
    wasm_path: Seq<char>,
    out_dir: Seq<char>,
    weak_refs: bool,
    reference_types: bool,
    supports_target: bool,
    out_name: Option<Seq<char>>,
    profile: ProfileSettings,
) -> Seq<Seq<char>> {
    seq![wasm_path, "--out-dir"@, out_dir, "--typescript"@] + flag(weak_refs, "--weak-refs"@)
        + flag(reference_types, "--reference-types"@) + (if supports_target {
        seq!["--target"@, "bundler"@]
    } else {
        seq!["--browser"@]
    }) + (match out_name {
        Some(value) => seq!["--out-name"@, value],
        None => Seq::empty(),
    }) + flag(profile.wasm_bindgen.debug_js_glue == Some(true), "--debug"@) + flag(
        profile.wasm_bindgen.demangle_name_section == Some(false),
        "--no-demangle"@,
    ) + flag(profile.wasm_bindgen.dwarf_debug_info == Some(true), "--keep-debug"@) + flag(
        profile.wasm_bindgen.omit_default_module_path == Some(true),
        "--omit-default-module-path"@,
    ) + flag(profile.wasm_bindgen.split_linked_modules == Some(true), "--split-linked-modules"@)
}

fn push_arg(args: &mut Vec<String>, arg: &str)
    ensures
        texts(final(args)@) == texts(old(args)@).push(arg@),
{
    args.push(String::from_str(arg));
    assert(texts(args@) =~= texts(old(args)@).push(arg@));
}

fn push_flag(args: &mut Vec<String>, on: bool, arg: &str)
    ensures
        texts(final(args)@) == texts(old(args)@) + flag(on, arg@),
{
    if on {
        push_arg(args, arg);
    }
    assert(texts(args@) =~= texts(old(args)@) + flag(on, arg@));
}

fn push_pair(args: &mut Vec<String>, first: &str, second: &str)
    ensures
        texts(final(args)@) == texts(old(args)@) + seq![first@, second@],
{
    push_arg(args, first);
    push_arg(args, second);
    assert(texts(args@) =~= texts(old(args)@) + seq![first@, second@]);
}

/// The arguments with which the `wasm-bindgen` CLI generates the bindings
/// for the module at `wasm_path` into `out_dir`, for the profile `profile`
/// of the crate.
pub fn wasm_bindgen_build(
    data: &CrateData,
    wasm_path: &str,
    out_dir: &str,
    supports_target: bool,
    out_name: &Option<String>,
    weak_refs: bool,
    reference_types: bool,
    profile: BuildProfile,
) -> (args: Vec<String>)
    requires
        crate::manifest::configured(data.cargo_manifest(), profile@)@.complete(),
    ensures
        texts(args@) == bindgen_args(
            wasm_path@,
            out_dir@,
            weak_refs,
            reference_types,
            supports_target,
            match out_name {
                Some(value) => Some(value@),
                None => None,
            },
            crate::manifest::configured(data.cargo_manifest(), profile@)@,
        ),
{
    let mut args: Vec<String> = Vec::new();
    push_arg(&mut args, wasm_path);
    push_arg(&mut args, "--out-dir");
    push_arg(&mut args, out_dir);
    push_arg(&mut args, "--typescript");
    assert(texts(args@) =~= seq![wasm_path@, "--out-dir"@, out_dir@, "--typescript"@]);
    push_flag(&mut args, weak_refs, "--weak-refs");
    push_flag(&mut args, reference_types, "--reference-types");
    let target = target_arg(supports_target);
    if supports_target {
        push_pair(&mut args, "--target", target.as_str());
    } else {
        let ghost before = texts(args@);
        push_arg(&mut args, target.as_str());
        assert(texts(args@) =~= before + seq!["--browser"@]);
    }
    let ghost before_name = texts(args@);
    match out_name {
        Some(value) => {
            push_pair(&mut args, "--out-name", value.as_str());
        },
        None => {
            assert(before_name =~= before_name + Seq::<Seq<char>>::empty());
        },
    }
    let profile = data.configured_profile(profile);
    push_flag(&mut args, profile.wasm_bindgen_debug_js_glue(), "--debug");
    push_flag(&mut args, !profile.wasm_bindgen_demangle_name_section(), "--no-demangle");
    push_flag(&mut args, profile.wasm_bindgen_dwarf_debug_info(), "--keep-debug");
    push_flag(
        &mut args,
        profile.wasm_bindgen_omit_default_module_path(),
        "--omit-default-module-path",
    );
    push_flag(&mut args, profile.wasm_bindgen_split_linked_modules(), "--split-linked-modules");
    args
}

} // verus!
