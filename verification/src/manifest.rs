//! What a crate's `Cargo.toml` and its cargo metadata say about the build:
//! the profiles under `package.metadata.wasm-js`, and the package that is
//! being built.

use crate::command::build::{BuildProfile, ProfileChoice};
use crate::utils::{contains, hyphens_to_underscores, occurs_in, starts_with, underscored};
use vstd::prelude::*;
use vstd::string::*;
use vstd::utf8::{encode_utf8, encode_utf8_decode_utf8};

verus! {

/// The table of the manifest that holds this tool's configuration.
pub const CARGO_METADATA_KEY: &'static str = "package.metadata.wasm-js";

/// The part of `Cargo.toml` that is read.
pub struct CargoManifest {
    pub package: CargoPackage,
}

/// The `[package]` table.
pub struct CargoPackage {
    pub name: String,
    pub metadata: CargoMetadata,
}

/// The `[package.metadata]` table.
pub struct CargoMetadata {
    pub wasm_js: CargoWasmPack,
}

/// The `[package.metadata.wasm-js]` table.
pub struct CargoWasmPack {
    pub profile: CargoWasmPackProfiles,
}

/// The four profiles that can be configured.
pub struct CargoWasmPackProfiles {
    pub dev: CargoWasmPackProfile,
    pub release: CargoWasmPackProfile,
    pub profiling: CargoWasmPackProfile,
    pub custom: CargoWasmPackProfile,
}

/// This is where configuration goes for wasm-bindgen, wasm-opt, wasm-snip, or
/// anything else that we run.
pub struct CargoWasmPackProfile {
    pub wasm_bindgen: CargoWasmPackProfileWasmBindgen,
    pub wasm_opt: Option<CargoWasmPackProfileWasmOpt>,
}

/// The switches of wasm-bindgen. A switch that the manifest does not set is
/// `None` until the defaults of its profile have been filled in.
#[derive(Clone, Copy)]
pub struct CargoWasmPackProfileWasmBindgen {
    pub debug_js_glue: Option<bool>,
    pub demangle_name_section: Option<bool>,
    pub dwarf_debug_info: Option<bool>,
    pub omit_default_module_path: Option<bool>,
    pub split_linked_modules: Option<bool>,
}

/// Whether wasm-opt runs, and with which arguments.
pub enum CargoWasmPackProfileWasmOpt {
    Enabled(bool),
    ExplicitArgs(Vec<String>),
}

/// The texts of a list of strings.
pub open spec fn texts(strings: Seq<String>) -> Seq<Seq<char>> {
    strings.map_values(|s: String| s@)
}

/// A copy of a list of strings.
pub fn clone_strings(strings: &Vec<String>) -> (copy: Vec<String>)
    ensures
        texts(copy@) == texts(strings@),
{
    let mut copy: Vec<String> = Vec::new();
    let mut i: usize = 0;
    while i < strings.len()
        invariant
            i <= strings.len(),
            texts(copy@) == texts(strings@.take(i as int)),
        decreases strings.len() - i,
    {
        let ghost before = copy@;
        copy.push(strings[i].clone());
        assert(texts(copy@) =~= texts(before).push(strings@[i as int]@));
        assert(texts(strings@.take(i + 1)) =~= texts(strings@.take(i as int)).push(
            strings@[i as int]@,
        ));
        i += 1;
    }
    assert(strings@.take(strings.len() as int) =~= strings@);
    copy
}

/// What a wasm-opt setting says.
pub enum WasmOptSetting {
    Enabled(bool),
    ExplicitArgs(Seq<Seq<char>>),
}

impl View for CargoWasmPackProfileWasmOpt {
    type V = WasmOptSetting;

    open spec fn view(&self) -> WasmOptSetting {
        match self {
            CargoWasmPackProfileWasmOpt::Enabled(on) => WasmOptSetting::Enabled(*on),
            CargoWasmPackProfileWasmOpt::ExplicitArgs(args) => WasmOptSetting::ExplicitArgs(
                texts(args@),
            ),
        }
    }
}

impl CargoWasmPackProfileWasmOpt {
    /// A copy of this setting.
    pub fn duplicate(&self) -> (copy: Self)
        ensures
            copy@ == self@,
    {
        match self {
            CargoWasmPackProfileWasmOpt::Enabled(on) => CargoWasmPackProfileWasmOpt::Enabled(*on),
            CargoWasmPackProfileWasmOpt::ExplicitArgs(args) => {
                CargoWasmPackProfileWasmOpt::ExplicitArgs(clone_strings(args))
            },
        }
    }
}

impl Default for CargoWasmPackProfileWasmOpt {
    fn default() -> (setting: Self)
        ensures
            setting@ == WasmOptSetting::Enabled(false),
    {
        CargoWasmPackProfileWasmOpt::Enabled(false)
    }
}

/// What a profile says.
pub struct ProfileSettings {
    pub wasm_bindgen: CargoWasmPackProfileWasmBindgen,
    pub wasm_opt: Option<WasmOptSetting>,
}

impl ProfileSettings {
    /// Whether every switch of wasm-bindgen has a value.
    pub open spec fn complete(self) -> bool {
        &&& self.wasm_bindgen.debug_js_glue is Some
        &&& self.wasm_bindgen.demangle_name_section is Some
        &&& self.wasm_bindgen.dwarf_debug_info is Some
        &&& self.wasm_bindgen.omit_default_module_path is Some
        &&& self.wasm_bindgen.split_linked_modules is Some
    }

    /// These settings, with `defaults` for every setting that has no value.
    pub open spec fn or_defaults(self, defaults: ProfileSettings) -> ProfileSettings {
        ProfileSettings {
            wasm_bindgen: CargoWasmPackProfileWasmBindgen {
                debug_js_glue: if self.wasm_bindgen.debug_js_glue is Some {
                    self.wasm_bindgen.debug_js_glue
                } else {
                    defaults.wasm_bindgen.debug_js_glue
                },
                demangle_name_section: if self.wasm_bindgen.demangle_name_section is Some {
                    self.wasm_bindgen.demangle_name_section
                } else {
                    defaults.wasm_bindgen.demangle_name_section
                },
                dwarf_debug_info: if self.wasm_bindgen.dwarf_debug_info is Some {
                    self.wasm_bindgen.dwarf_debug_info
                } else {
                    defaults.wasm_bindgen.dwarf_debug_info
                },
                omit_default_module_path: if self.wasm_bindgen.omit_default_module_path is Some {
                    self.wasm_bindgen.omit_default_module_path
                } else {
                    defaults.wasm_bindgen.omit_default_module_path
                },
                split_linked_modules: if self.wasm_bindgen.split_linked_modules is Some {
                    self.wasm_bindgen.split_linked_modules
                } else {
                    defaults.wasm_bindgen.split_linked_modules
                },
            },
            wasm_opt: if self.wasm_opt is Some {
                self.wasm_opt
            } else {
                defaults.wasm_opt
            },
        }
    }

    /// The arguments for wasm-opt, or `None` if it does not run.
    pub open spec fn wasm_opt_args(self) -> Option<Seq<Seq<char>>> {
        match self.wasm_opt {
            None => None,
            Some(WasmOptSetting::Enabled(false)) => None,
            Some(WasmOptSetting::Enabled(true)) => Some(seq!["-O"@]),
            Some(WasmOptSetting::ExplicitArgs(args)) => Some(args),
        }
    }
}

/// The defaults of the dev profile: debug glue on, wasm-opt not set.
pub open spec fn dev_settings() -> ProfileSettings {
    ProfileSettings {
        wasm_bindgen: CargoWasmPackProfileWasmBindgen {
            debug_js_glue: Some(true),
            demangle_name_section: Some(true),
            dwarf_debug_info: Some(false),
            omit_default_module_path: Some(false),
            split_linked_modules: Some(false),
        },
        wasm_opt: None,
    }
}

/// The defaults of the release, profiling and custom profiles: debug glue
/// off, wasm-opt on.
pub open spec fn optimized_settings() -> ProfileSettings {
    ProfileSettings {
        wasm_bindgen: CargoWasmPackProfileWasmBindgen {
            debug_js_glue: Some(false),
            demangle_name_section: Some(true),
            dwarf_debug_info: Some(false),
            omit_default_module_path: Some(false),
            split_linked_modules: Some(false),
        },
        wasm_opt: Some(WasmOptSetting::Enabled(true)),
    }
}

impl View for CargoWasmPackProfile {
    type V = ProfileSettings;

    open spec fn view(&self) -> ProfileSettings {
        ProfileSettings {
            wasm_bindgen: self.wasm_bindgen,
            wasm_opt: match self.wasm_opt {
                Some(setting) => Some(setting@),
                None => None,
            },
        }
    }
}

impl Default for CargoWasmPackProfile {
    /// A profile in which nothing is set.
    fn default() -> (profile: Self)
        ensures
            profile@ == (ProfileSettings {
                wasm_bindgen: CargoWasmPackProfileWasmBindgen {
                    debug_js_glue: None,
                    demangle_name_section: None,
                    dwarf_debug_info: None,
                    omit_default_module_path: None,
                    split_linked_modules: None,
                },
                wasm_opt: None,
            }),
    {
        CargoWasmPackProfile {
            wasm_bindgen: CargoWasmPackProfileWasmBindgen {
                debug_js_glue: None,
                demangle_name_section: None,
                dwarf_debug_info: None,
                omit_default_module_path: None,
                split_linked_modules: None,
            },
            wasm_opt: None,
        }
    }
}

impl CargoWasmPackProfile {
    /// The defaults of the dev profile.
    pub fn default_dev() -> (profile: Self)
        ensures
            profile@ == dev_settings(),
    {
        CargoWasmPackProfile {
            wasm_bindgen: CargoWasmPackProfileWasmBindgen {
                debug_js_glue: Some(true),
                demangle_name_section: Some(true),
                dwarf_debug_info: Some(false),
                omit_default_module_path: Some(false),
                split_linked_modules: Some(false),
            },
            wasm_opt: None,
        }
    }

    /// The defaults of the release profile.
    pub fn default_release() -> (profile: Self)
        ensures
            profile@ == optimized_settings(),
    {
        CargoWasmPackProfile {
            wasm_bindgen: CargoWasmPackProfileWasmBindgen {
                debug_js_glue: Some(false),
                demangle_name_section: Some(true),
                dwarf_debug_info: Some(false),
                omit_default_module_path: Some(false),
                split_linked_modules: Some(false),
            },
            wasm_opt: Some(CargoWasmPackProfileWasmOpt::Enabled(true)),
        }
    }

    /// The defaults of the profiling profile.
    pub fn default_profiling() -> (profile: Self)
        ensures
            profile@ == optimized_settings(),
    {
        CargoWasmPackProfile {
            wasm_bindgen: CargoWasmPackProfileWasmBindgen {
                debug_js_glue: Some(false),
                demangle_name_section: Some(true),
                dwarf_debug_info: Some(false),
                omit_default_module_path: Some(false),
                split_linked_modules: Some(false),
            },
            wasm_opt: Some(CargoWasmPackProfileWasmOpt::Enabled(true)),
        }
    }

    /// The defaults of a custom profile.
    pub fn default_custom() -> (profile: Self)
        ensures
            profile@ == optimized_settings(),
    {
        CargoWasmPackProfile {
            wasm_bindgen: CargoWasmPackProfileWasmBindgen {
                debug_js_glue: Some(false),
                demangle_name_section: Some(true),
                dwarf_debug_info: Some(false),
                omit_default_module_path: Some(false),
                split_linked_modules: Some(false),
            },
            wasm_opt: Some(CargoWasmPackProfileWasmOpt::Enabled(true)),
        }
    }

    /// Fills in, for every setting that the manifest left out, the value that
    /// `defaults` has for it. What the manifest set stays.
    pub fn update_with_defaults(&mut self, defaults: &Self)
        requires
            defaults@.complete(),
        ensures
            final(self)@ == old(self)@.or_defaults(defaults@),
            final(self)@.complete(),
    {
        if self.wasm_bindgen.debug_js_glue.is_none() {
            self.wasm_bindgen.debug_js_glue = defaults.wasm_bindgen.debug_js_glue;
        }
        if self.wasm_bindgen.demangle_name_section.is_none() {
            self.wasm_bindgen.demangle_name_section = defaults.wasm_bindgen.demangle_name_section;
        }
        if self.wasm_bindgen.dwarf_debug_info.is_none() {
            self.wasm_bindgen.dwarf_debug_info = defaults.wasm_bindgen.dwarf_debug_info;
        }
        if self.wasm_bindgen.omit_default_module_path.is_none() {
            self.wasm_bindgen.omit_default_module_path =
            defaults.wasm_bindgen.omit_default_module_path;
        }
        if self.wasm_bindgen.split_linked_modules.is_none() {
            self.wasm_bindgen.split_linked_modules = defaults.wasm_bindgen.split_linked_modules;
        }
        if self.wasm_opt.is_none() {
            self.wasm_opt = match &defaults.wasm_opt {
                Some(setting) => Some(setting.duplicate()),
                None => None,
            };
        }
    }

    /// Get this profile's configured `[wasm-bindgen.debug-js-glue]` value.
    pub fn wasm_bindgen_debug_js_glue(&self) -> (on: bool)
        requires
            self@.wasm_bindgen.debug_js_glue is Some,
        ensures
            Some(on) == self@.wasm_bindgen.debug_js_glue,
    {
        self.wasm_bindgen.debug_js_glue.unwrap()
    }

    /// Get this profile's configured `[wasm-bindgen.demangle-name-section]` value.
    pub fn wasm_bindgen_demangle_name_section(&self) -> (on: bool)
        requires
            self@.wasm_bindgen.demangle_name_section is Some,
        ensures
            Some(on) == self@.wasm_bindgen.demangle_name_section,
    {
        self.wasm_bindgen.demangle_name_section.unwrap()
    }

    /// Get this profile's configured `[wasm-bindgen.dwarf-debug-info]` value.
    pub fn wasm_bindgen_dwarf_debug_info(&self) -> (on: bool)
        requires
            self@.wasm_bindgen.dwarf_debug_info is Some,
        ensures
            Some(on) == self@.wasm_bindgen.dwarf_debug_info,
    {
        self.wasm_bindgen.dwarf_debug_info.unwrap()
    }

    /// Get this profile's configured `[wasm-bindgen.omit-default-module-path]` value.
    pub fn wasm_bindgen_omit_default_module_path(&self) -> (on: bool)
        requires
            self@.wasm_bindgen.omit_default_module_path is Some,
        ensures
            Some(on) == self@.wasm_bindgen.omit_default_module_path,
    {
        self.wasm_bindgen.omit_default_module_path.unwrap()
    }

    /// Get this profile's configured `[wasm-bindgen.split-linked-modules]` value.
    pub fn wasm_bindgen_split_linked_modules(&self) -> (on: bool)
        requires
            self@.wasm_bindgen.split_linked_modules is Some,
        ensures
            Some(on) == self@.wasm_bindgen.split_linked_modules,
    {
        self.wasm_bindgen.split_linked_modules.unwrap()
    }

    /// Get this profile's configured arguments for `wasm-opt`, if enabled.
    pub fn wasm_opt_args(&self) -> (args: Option<Vec<String>>)
        ensures
            match args {
                Some(list) => self@.wasm_opt_args() == Some(texts(list@)),
                None => self@.wasm_opt_args() is None,
            },
    {
        match &self.wasm_opt {
            None => None,
            Some(CargoWasmPackProfileWasmOpt::Enabled(false)) => None,
            Some(CargoWasmPackProfileWasmOpt::Enabled(true)) => {
                let mut list: Vec<String> = Vec::new();
                list.push(String::from_str("-O"));
                assert(texts(list@) =~= seq!["-O"@]);
                Some(list)
            },
            Some(CargoWasmPackProfileWasmOpt::ExplicitArgs(s)) => Some(clone_strings(s)),
        }
    }
}

impl Default for CargoWasmPackProfiles {
    /// Every profile with its defaults.
    fn default() -> (profiles: Self)
        ensures
            profiles.dev@ == dev_settings(),
            profiles.release@ == optimized_settings(),
            profiles.profiling@ == optimized_settings(),
            profiles.custom@ == optimized_settings(),
    {
        CargoWasmPackProfiles {
            dev: CargoWasmPackProfile::default_dev(),
            release: CargoWasmPackProfile::default_release(),
            profiling: CargoWasmPackProfile::default_profiling(),
            custom: CargoWasmPackProfile::default_custom(),
        }
    }
}

/// The least number of insertions, deletions and substitutions of single
/// characters that change `a` into `b`.
pub open spec fn edit_distance(a: Seq<char>, b: Seq<char>) -> nat
    decreases a.len() + b.len(),
{
    if a.len() == 0 {
        b.len()
    } else if b.len() == 0 {
        a.len()
    } else {
        let substitute = edit_distance(a.drop_last(), b.drop_last()) + (if a.last() == b.last() {
            0nat
        } else {
            1nat
        });
        let delete = edit_distance(a.drop_last(), b) + 1;
        let insert = edit_distance(a, b.drop_last()) + 1;
        if substitute <= delete && substitute <= insert {
            substitute
        } else if delete <= insert {
            delete
        } else {
            insert
        }
    }
}

/// Calls `strsim::levenshtein`, which fills the table of the Levenshtein
/// distance row by row over the characters of the two strings. The contract
/// claims that the result is that distance.
#[verifier::external_body]
fn levenshtein(a: &str, b: &str) -> (distance: usize)
    ensures
        distance == edit_distance(a@, b@),
{
    strsim::levenshtein(a, b)
}

/// Whether a key that the manifest holds and nothing reads is worth a
/// warning: it stands under `package.metadata`, and it names `wasm-js` or is
/// one edit away from this tool's table.
pub open spec fn is_suspect_key(path: Seq<char>) -> bool {
    "package.metadata"@.is_prefix_of(path) && (occurs_in("wasm-js"@, path) || edit_distance(
        CARGO_METADATA_KEY@,
        path,
    ) <= 1)
}

/// Whether the unused key `path` of the manifest is worth a warning.
pub fn is_suspect_unused_key(path: &str) -> (suspect: bool)
    ensures
        suspect == is_suspect_key(path@),
{
    starts_with(path, "package.metadata") && (contains(path, "wasm-js") || levenshtein(
        CARGO_METADATA_KEY,
        path,
    ) <= 1)
}

/// Whether `a` comes before `b` in the order of strings: by their bytes,
/// from the left, a string coming before every longer one that begins with
/// it.
pub open spec fn bytes_before(a: Seq<u8>, b: Seq<u8>) -> bool
    decreases a.len(),
{
    if b.len() == 0 {
        false
    } else if a.len() == 0 {
        true
    } else if a[0] != b[0] {
        a[0] < b[0]
    } else {
        bytes_before(a.drop_first(), b.drop_first())
    }
}

/// Whether the text `a` comes before the text `b` in the order of strings.
pub open spec fn text_before(a: Seq<char>, b: Seq<char>) -> bool {
    bytes_before(encode_utf8(a), encode_utf8(b))
}

/// Nothing comes before itself.
proof fn lemma_before_irreflexive(a: Seq<u8>)
    ensures
        !bytes_before(a, a),
    decreases a.len(),
{
    if a.len() > 0 {
        lemma_before_irreflexive(a.drop_first());
    }
}

/// Of two different strings one comes before the other.
proof fn lemma_before_total(a: Seq<u8>, b: Seq<u8>)
    requires
        a != b,
        !bytes_before(a, b),
    ensures
        bytes_before(b, a),
    decreases a.len(),
{
    if a.len() > 0 && b.len() > 0 && a[0] == b[0] {
        assert(a.drop_first() != b.drop_first()) by {
            if a.drop_first() == b.drop_first() {
                assert(a =~= seq![a[0]] + a.drop_first());
                assert(b =~= seq![b[0]] + b.drop_first());
            }
        }
        lemma_before_total(a.drop_first(), b.drop_first());
    } else if a.len() == 0 {
        assert(b.len() == 0);
        assert(a =~= b);
    }
}

/// What comes before a string comes before every string after it.
proof fn lemma_before_transitive(a: Seq<u8>, b: Seq<u8>, c: Seq<u8>)
    requires
        bytes_before(a, b),
        bytes_before(b, c),
    ensures
        bytes_before(a, c),
    decreases a.len(),
{
    if a.len() > 0 && a[0] == b[0] && b[0] == c[0] {
        lemma_before_transitive(a.drop_first(), b.drop_first(), c.drop_first());
    }
}

/// Texts with the same bytes are the same text.
proof fn lemma_same_bytes_same_text(a: Seq<char>, b: Seq<char>)
    requires
        encode_utf8(a) == encode_utf8(b),
    ensures
        a == b,
{
    encode_utf8_decode_utf8(a);
    encode_utf8_decode_utf8(b);
}

/// Says how two byte strings stand to each other: whether the first comes
/// before the second, and whether they are the same.
fn compare_bytes(a: &[u8], b: &[u8]) -> (order: (bool, bool))
    ensures
        order.0 == bytes_before(a@, b@),
        order.1 == (a@ == b@),
{
    let mut i: usize = 0;
    assert(a@.skip(0) =~= a@ && b@.skip(0) =~= b@);
    while i < a.len() && i < b.len()
        invariant
            i <= a.len(),
            i <= b.len(),
            a@.take(i as int) == b@.take(i as int),
            bytes_before(a@, b@) == bytes_before(a@.skip(i as int), b@.skip(i as int)),
        decreases a.len() - i,
    {
        let ghost rest_a = a@.skip(i as int);
        let ghost rest_b = b@.skip(i as int);
        assert(rest_a[0] == a@[i as int] && rest_b[0] == b@[i as int]);
        if a[i] != b[i] {
            return (a[i] < b[i], false);
        }
        assert(rest_a.drop_first() =~= a@.skip(i + 1));
        assert(rest_b.drop_first() =~= b@.skip(i + 1));
        assert(a@.take(i + 1) =~= a@.take(i as int).push(a@[i as int]));
        assert(b@.take(i + 1) =~= b@.take(i as int).push(b@[i as int]));
        i += 1;
    }
    if i == a.len() && i == b.len() {
        assert(a@ =~= a@.take(i as int) && b@ =~= b@.take(i as int));
        (false, true)
    } else {
        (i == a.len(), false)
    }
}

/// A set of keys: each key once, and the keys in the order of strings.
pub struct UnusedKeys {
    keys: Vec<String>,
}

impl UnusedKeys {
    /// The keys, in the order in which the set hands them out.
    pub closed spec fn keys(&self) -> Seq<String> {
        self.keys@
    }

    /// Whether the set is in order: every key comes before every key that
    /// stands behind it, so that none stands in it twice.
    pub open spec fn wf(&self) -> bool {
        forall|i: int, j: int|
            0 <= i < j < self.keys().len() ==> text_before(
                (#[trigger] self.keys()[i])@,
                (#[trigger] self.keys()[j])@,
            )
    }

    /// Whether the set holds a key with the text `key`.
    pub open spec fn contains(&self, key: Seq<char>) -> bool {
        exists|i: int| 0 <= i < self.keys().len() && (#[trigger] self.keys()[i])@ == key
    }

    /// The empty set.
    pub fn new() -> (set: Self)
        ensures
            set.wf(),
            set.keys() == Seq::<String>::empty(),
    {
        UnusedKeys { keys: Vec::new() }
    }

    /// The place of `key` in the order of the set: every key before that
    /// place comes before `key`, and the key at that place is `key` or comes
    /// after it. Says also whether the set holds `key`.
    fn place_of(&self, key: &String) -> (place: (usize, bool))
        requires
            self.wf(),
        ensures
            place.0 <= self.keys().len(),
            forall|i: int| 0 <= i < place.0 ==> text_before((#[trigger] self.keys()[i])@, key@),
            place.1 ==> place.0 < self.keys().len() && self.keys()[place.0 as int]@ == key@,
            !place.1 ==> forall|j: int|
                place.0 <= j < self.keys().len() ==> text_before(
                    key@,
                    (#[trigger] self.keys()[j])@,
                ),
    {
        let ghost keys = self.keys();
        let mut at: usize = 0;
        while at < self.keys.len()
            invariant
                at <= keys.len(),
                keys == self.keys(),
                keys == self.keys@,
                self.wf(),
                forall|i: int| 0 <= i < at ==> text_before((#[trigger] keys[i])@, key@),
            decreases keys.len() - at,
        {
            let (before, same) = compare_bytes(
                self.keys[at].as_str().as_bytes(),
                key.as_str().as_bytes(),
            );
            if same {
                proof {
                    lemma_same_bytes_same_text(keys[at as int]@, key@);
                }
                return (at, true);
            }
            if !before {
                proof {
                    let here = encode_utf8(keys[at as int]@);
                    lemma_before_total(here, encode_utf8(key@));
                    assert forall|j: int| at <= j < keys.len() implies text_before(
                        key@,
                        (#[trigger] keys[j])@,
                    ) by {
                        if j > at {
                            assert(text_before(keys[at as int]@, keys[j]@));
                            lemma_before_transitive(
                                encode_utf8(key@),
                                here,
                                encode_utf8(keys[j]@),
                            );
                        }
                    }
                }
                return (at, false);
            }
            at += 1;
        }
        (at, false)
    }

    /// Adds `key` to the set, at its place in the order of strings, unless
    /// the set holds it already. Says whether it was added.
    pub fn insert(&mut self, key: String) -> (added: bool)
        requires
            old(self).wf(),
        ensures
            final(self).wf(),
            added == !old(self).contains(key@),
            !added ==> final(self).keys() == old(self).keys(),
            added ==> exists|at: int|
                0 <= at <= old(self).keys().len() && final(self).keys() == old(
                    self,
                ).keys().insert(at, key),
    {
        let ghost old_keys = self.keys();
        let (at, present) = self.place_of(&key);
        if present {
            assert(old_keys[at as int]@ == key@);
            return false;
        }
        proof {
            assert forall|i: int| 0 <= i < old_keys.len() implies (#[trigger] old_keys[i])@
                != key@ by {
                lemma_before_irreflexive(encode_utf8(key@));
            }
        }
        self.keys.insert(at, key);
        proof {
            let new_keys = self.keys();
            assert(new_keys == old_keys.insert(at as int, key));
            assert forall|i: int, j: int| 0 <= i < j < new_keys.len() implies text_before(
                (#[trigger] new_keys[i])@,
                (#[trigger] new_keys[j])@,
            ) by {
                let oi = if i < at {
                    i
                } else {
                    i - 1
                };
                let oj = if j < at {
                    j
                } else {
                    j - 1
                };
                if i != at && j != at {
                    assert(new_keys[i] == old_keys[oi] && new_keys[j] == old_keys[oj]);
                    assert(text_before(old_keys[oi]@, old_keys[oj]@));
                } else if i == at {
                    assert(new_keys[j] == old_keys[oj]);
                    assert(text_before(key@, old_keys[oj]@));
                } else {
                    assert(new_keys[i] == old_keys[oi]);
                    assert(text_before(old_keys[oi]@, key@));
                }
            }
        }
        true
    }

    /// The keys of the set, in the order of strings.
    pub fn as_vec(&self) -> (keys: &Vec<String>)
        ensures
            keys@ == self.keys(),
    {
        &self.keys
    }
}

/// Takes note of the key `path` of the manifest, which nothing reads, if it
/// is worth a warning.
pub fn record_unused_key(unused_keys: &mut UnusedKeys, path: String)
    requires
        old(unused_keys).wf(),
    ensures
        final(unused_keys).wf(),
        !is_suspect_key(path@) || old(unused_keys).contains(path@) ==> final(unused_keys).keys()
            == old(unused_keys).keys(),
        is_suspect_key(path@) && !old(unused_keys).contains(path@) ==> exists|at: int|
            0 <= at <= old(unused_keys).keys().len() && final(unused_keys).keys() == old(
                unused_keys,
            ).keys().insert(at, path),
{
    if is_suspect_unused_key(path.as_str()) {
        unused_keys.insert(path);
    }
}

/// The manifest, and the keys in it that nothing reads and that are worth a
/// warning.
pub struct ManifestAndUnsedKeys {
    pub manifest: CargoManifest,
    pub unused_keys: UnusedKeys,
}

/// The warning for the unused key `key`.
pub open spec fn unused_key_warning(key: Seq<char>) -> Seq<char> {
    "\""@ + key + "\" is an unknown key and will be ignored. Please check your Cargo.toml."@
}

/// One target of a package.
pub struct Target {
    pub name: String,
    pub kind: Vec<String>,
    pub crate_types: Vec<String>,
}

/// One package of the workspace.
pub struct Package {
    pub name: String,
    pub targets: Vec<Target>,
    pub readme: Option<String>,
    /// Whether the package's manifest is the file that the crate's manifest
    /// was read from.
    pub at_manifest_path: bool,
}

/// What cargo says about the workspace.
pub struct Metadata {
    pub packages: Vec<Package>,
    pub target_directory: String,
    pub workspace_root: String,
}

/// Why the crate cannot be built.
#[derive(Clone, Copy, Debug, PartialEq, Eq, Structural)]
pub enum ManifestError {
    /// No package of the workspace has the manifest's name and path.
    PackageNotFound,
    /// No target of the package is a `cdylib`.
    NotCdylib,
}

impl ManifestError {
    /// The text of the error.
    pub open spec fn message_text(self) -> Seq<char> {
        match self {
            ManifestError::PackageNotFound => "failed to find package in metadata"@,
            ManifestError::NotCdylib =>
                "crate-type must be cdylib to compile to wasm32-unknown-unknown. Add the following to your Cargo.toml file:\n\n[lib]\ncrate-type = [\"cdylib\", \"rlib\"]"@,
        }
    }

    /// The text of the error.
    pub fn message(&self) -> (text: String)
        ensures
            text@ == self.message_text(),
    {
        match self {
            ManifestError::PackageNotFound => String::from_str(
                "failed to find package in metadata",
            ),
            ManifestError::NotCdylib => String::from_str(
                "crate-type must be cdylib to compile to wasm32-unknown-unknown. Add the following to your Cargo.toml file:\n\n[lib]\ncrate-type = [\"cdylib\", \"rlib\"]",
            ),
        }
    }
}

/// Whether one of `strings` is `cdylib`.
pub open spec fn names_cdylib(strings: Seq<String>) -> bool {
    exists|i: int| 0 <= i < strings.len() && (#[trigger] strings[i])@ == "cdylib"@
}

/// Whether `package` is the one whose manifest was read: it has the name
/// `name` and stands at the manifest's path.
pub open spec fn is_current(package: Package, name: Seq<char>) -> bool {
    package.name@ == name && package.at_manifest_path
}

/// Whether `target` is built as a `cdylib`.
pub open spec fn is_cdylib(target: Target) -> bool {
    names_cdylib(target.kind@) && names_cdylib(target.crate_types@)
}

/// Whether one of `targets` is built as a `cdylib`.
pub open spec fn any_cdylib(targets: Seq<Target>) -> bool {
    exists|i: int| 0 <= i < targets.len() && is_cdylib(#[trigger] targets[i])
}

/// The name of the first of `targets` whose kind names `cdylib`, or
/// `fallback` if there is none; in either case with `_` for every `-`.
pub open spec fn library_name(targets: Seq<Target>, fallback: Seq<char>) -> Seq<char>
    decreases targets.len(),
{
    if targets.len() == 0 {
        underscored(fallback)
    } else if names_cdylib(targets[0].kind@) {
        underscored(targets[0].name@)
    } else {
        library_name(targets.drop_first(), fallback)
    }
}

fn has_cdylib(strings: &Vec<String>) -> (found: bool)
    ensures
        found == names_cdylib(strings@),
{
    let wanted = String::from_str("cdylib");
    let mut i: usize = 0;
    while i < strings.len()
        invariant
            i <= strings.len(),
            wanted@ == "cdylib"@,
            forall|j: int| 0 <= j < i ==> (#[trigger] strings@[j])@ != "cdylib"@,
        decreases strings.len() - i,
    {
        if strings[i] == wanted {
            return true;
        }
        i += 1;
    }
    false
}

/// What `manifest` configures for the profile `profile`. Every custom
/// profile has the same configuration.
pub open spec fn configured(manifest: CargoManifest, profile: ProfileChoice) -> CargoWasmPackProfile {
    match profile {
        ProfileChoice::Dev => manifest.package.metadata.wasm_js.profile.dev,
        ProfileChoice::Profiling => manifest.package.metadata.wasm_js.profile.profiling,
        ProfileChoice::Release => manifest.package.metadata.wasm_js.profile.release,
        ProfileChoice::Custom(_) => manifest.package.metadata.wasm_js.profile.custom,
    }
}

/// Store for metadata learned about a crate
pub struct CrateData {
    data: Metadata,
    current_idx: usize,
    manifest: CargoManifest,
    out_name: Option<String>,
}

impl CrateData {
    /// Whether the crate data is in order: the current package is one of the
    /// packages.
    pub open spec fn wf(&self) -> bool {
        0 <= self.current_index() < self.metadata().packages@.len()
    }

    /// What cargo says about the workspace.
    pub closed spec fn metadata(&self) -> Metadata {
        self.data
    }

    /// The index of the package that is built.
    pub closed spec fn current_index(&self) -> int {
        self.current_idx as int
    }

    /// The package that is built.
    pub open spec fn package(&self) -> Package {
        self.metadata().packages@[self.current_index()]
    }

    /// The manifest of the crate.
    pub closed spec fn cargo_manifest(&self) -> CargoManifest {
        self.manifest
    }

    /// The name for the output files, if one was given.
    pub closed spec fn given_out_name(&self) -> Option<String> {
        self.out_name
    }

    /// Puts together what was learned about the crate: the metadata of the
    /// workspace, the manifest, and the name for the output files. The
    /// current package is the first one that has the manifest's name and
    /// stands at its path; without one it fails.
    pub fn new(data: Metadata, manifest: CargoManifest, out_name: Option<String>) -> (result:
        Result<CrateData, ManifestError>)
        ensures
            match result {
                Ok(crate_data) => {
                    &&& crate_data.wf()
                    &&& 0 <= crate_data.current_index() < data.packages@.len()
                    &&& crate_data.metadata() == data
                    &&& crate_data.cargo_manifest() == manifest
                    &&& crate_data.given_out_name() == out_name
                    &&& is_current(crate_data.package(), manifest.package.name@)
                    &&& forall|j: int|
                        0 <= j < crate_data.current_index() ==> !is_current(
                            #[trigger] data.packages@[j],
                            manifest.package.name@,
                        )
                },
                Err(e) => {
                    &&& e == ManifestError::PackageNotFound
                    &&& forall|j: int|
                        0 <= j < data.packages@.len() ==> !is_current(
                            #[trigger] data.packages@[j],
                            manifest.package.name@,
                        )
                },
            },
    {
        let mut i: usize = 0;
        while i < data.packages.len()
            invariant
                i <= data.packages@.len(),
                forall|j: int|
                    0 <= j < i ==> !is_current(
                        #[trigger] data.packages@[j],
                        manifest.package.name@,
                    ),
            decreases data.packages@.len() - i,
        {
            if data.packages[i].name == manifest.package.name && data.packages[i].at_manifest_path {
                return Ok(CrateData { data, manifest, current_idx: i, out_name });
            }
            i += 1;
        }
        Err(ManifestError::PackageNotFound)
    }

    /// The warnings for the keys of the manifest that nothing reads: one for
    /// each key, in their order.
    pub fn warn_for_unused_keys(manifest_and_keys: &ManifestAndUnsedKeys) -> (warnings: Vec<
        String,
    >)
        ensures
            texts(warnings@) == texts(manifest_and_keys.unused_keys.keys()).map_values(
                |key: Seq<char>| unused_key_warning(key),
            ),
    {
        let keys = manifest_and_keys.unused_keys.as_vec();
        let mut warnings: Vec<String> = Vec::new();
        let mut i: usize = 0;
        while i < keys.len()
            invariant
                i <= keys.len(),
                texts(warnings@) == texts(keys@.take(i as int)).map_values(
                    |key: Seq<char>| unused_key_warning(key),
                ),
            decreases keys.len() - i,
        {
            let mut warning = String::from_str("\"");
            warning.append(keys[i].as_str());
            warning.append(
                "\" is an unknown key and will be ignored. Please check your Cargo.toml.",
            );
            let ghost before = warnings@;
            warnings.push(warning);
            assert(texts(warnings@) =~= texts(before).push(unused_key_warning(keys@[i as int]@)));
            assert(texts(keys@.take(i + 1)) =~= texts(keys@.take(i as int)).push(
                keys@[i as int]@,
            ));
            assert(texts(warnings@) =~= texts(keys@.take(i + 1)).map_values(
                |key: Seq<char>| unused_key_warning(key),
            ));
            i += 1;
        }
        assert(keys@.take(keys.len() as int) =~= keys@);
        warnings
    }

    /// Get the configured profile.
    pub fn configured_profile(&self, profile: BuildProfile) -> (profile_of_manifest:
        &CargoWasmPackProfile)
        ensures
            *profile_of_manifest == configured(self.cargo_manifest(), profile@),
    {
        match profile {
            BuildProfile::Dev => &self.manifest.package.metadata.wasm_js.profile.dev,
            BuildProfile::Profiling => &self.manifest.package.metadata.wasm_js.profile.profiling,
            BuildProfile::Release => &self.manifest.package.metadata.wasm_js.profile.release,
            BuildProfile::Custom(_) => &self.manifest.package.metadata.wasm_js.profile.custom,
        }
    }

    /// Check that the crate the given path is properly configured: one of
    /// its targets must be built as a `cdylib`.
    pub fn check_crate_config(&self) -> (result: Result<(), ManifestError>)
        requires
            self.wf(),
        ensures
            result is Ok <==> any_cdylib(self.package().targets@),
            result is Err ==> result == Err::<(), ManifestError>(ManifestError::NotCdylib),
    {
        self.check_crate_type()
    }

    fn check_crate_type(&self) -> (result: Result<(), ManifestError>)
        requires
            self.wf(),
        ensures
            result is Ok <==> any_cdylib(self.package().targets@),
            result is Err ==> result == Err::<(), ManifestError>(ManifestError::NotCdylib),
    {
        let pkg = self.pkg();
        let mut i: usize = 0;
        while i < pkg.targets.len()
            invariant
                i <= pkg.targets@.len(),
                *pkg == self.package(),
                forall|j: int| 0 <= j < i ==> !is_cdylib(#[trigger] pkg.targets@[j]),
            decreases pkg.targets@.len() - i,
        {
            if has_cdylib(&pkg.targets[i].kind) && has_cdylib(&pkg.targets[i].crate_types) {
                assert(is_cdylib(pkg.targets@[i as int]));
                return Ok(());
            }
            i += 1;
        }
        Err(ManifestError::NotCdylib)
    }

    fn pkg(&self) -> (package: &Package)
        requires
            self.wf(),
        ensures
            *package == self.package(),
    {
        &self.data.packages[self.current_idx]
    }

    /// Get the crate name for the crate at the given path: the name of its
    /// `cdylib` target, or of the package if it has none, with `_` for `-`.
    pub fn crate_name(&self) -> (name: String)
        requires
            self.wf(),
        ensures
            name@ == library_name(self.package().targets@, self.package().name@),
    {
        let pkg = self.pkg();
        let mut i: usize = 0;
        assert(pkg.targets@.skip(0) =~= pkg.targets@);
        while i < pkg.targets.len()
            invariant
                i <= pkg.targets@.len(),
                *pkg == self.package(),
                library_name(pkg.targets@, pkg.name@) == library_name(
                    pkg.targets@.skip(i as int),
                    pkg.name@,
                ),
            decreases pkg.targets@.len() - i,
        {
            let ghost rest = pkg.targets@.skip(i as int);
            assert(rest[0] == pkg.targets@[i as int]);
            if has_cdylib(&pkg.targets[i].kind) {
                return hyphens_to_underscores(pkg.targets[i].name.as_str());
            }
            assert(rest.drop_first() =~= pkg.targets@.skip(i + 1));
            i += 1;
        }
        assert(pkg.targets@.skip(i as int).len() == 0);
        hyphens_to_underscores(pkg.name.as_str())
    }

    /// Get the prefix for output file names: the name that was given for
    /// them, or the crate name.
    pub fn name_prefix(&self) -> (prefix: String)
        requires
            self.wf(),
        ensures
            prefix@ == match self.given_out_name() {
                Some(value) => value@,
                None => library_name(self.package().targets@, self.package().name@),
            },
    {
        match &self.out_name {
            Some(value) => value.clone(),
            None => self.crate_name(),
        }
    }

    /// Gets the optional path to the readme, or None if disabled.
    pub fn crate_readme(&self) -> (readme: Option<String>)
        requires
            self.wf(),
        ensures
            readme == self.package().readme,
    {
        match &self.pkg().readme {
            Some(readme_file) => Some(readme_file.clone()),
            None => None,
        }
    }

    /// Returns the path to this project's target directory where artifacts are
    /// located after a cargo build.
    pub fn target_directory(&self) -> (path: &str)
        ensures
            path@ == self.metadata().target_directory@,
    {
        self.data.target_directory.as_str()
    }

    /// Returns the path to this project's root cargo workspace directory
    pub fn workspace_root(&self) -> (path: &str)
        ensures
            path@ == self.metadata().workspace_root@,
    {
        self.data.workspace_root.as_str()
    }
}

} // verus!
