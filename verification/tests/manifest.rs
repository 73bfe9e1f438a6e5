use wasm_js::command::build::BuildProfile;
use wasm_js::manifest::{
    is_suspect_unused_key, record_unused_key, CargoManifest, CargoMetadata, CargoPackage,
    CargoWasmPack, CargoWasmPackProfile, CargoWasmPackProfileWasmBindgen,
    CargoWasmPackProfileWasmOpt, CargoWasmPackProfiles, CrateData, ManifestAndUnsedKeys,
    ManifestError, Metadata, Package, Target, UnusedKeys, CARGO_METADATA_KEY,
};

fn unset() -> CargoWasmPackProfile {
    CargoWasmPackProfile::default()
}

fn manifest(name: &str) -> CargoManifest {
    CargoManifest {
        package: CargoPackage {
            name: name.to_string(),
            metadata: CargoMetadata {
                wasm_js: CargoWasmPack {
                    profile: CargoWasmPackProfiles::default(),
                },
            },
        },
    }
}

fn target(name: &str, kind: &[&str], crate_types: &[&str]) -> Target {
    Target {
        name: name.to_string(),
        kind: kind.iter().map(|s| s.to_string()).collect(),
        crate_types: crate_types.iter().map(|s| s.to_string()).collect(),
    }
}

fn package(name: &str, targets: Vec<Target>, here: bool) -> Package {
    Package {
        name: name.to_string(),
        targets,
        readme: Some("README.md".to_string()),
        at_manifest_path: here,
    }
}

fn metadata(packages: Vec<Package>) -> Metadata {
    Metadata {
        packages,
        target_directory: "/ws/target".to_string(),
        workspace_root: "/ws".to_string(),
    }
}

#[test]
fn dev_defaults() {
    let p = CargoWasmPackProfile::default_dev();
    assert!(p.wasm_bindgen_debug_js_glue());
    assert!(p.wasm_bindgen_demangle_name_section());
    assert!(!p.wasm_bindgen_dwarf_debug_info());
    assert!(!p.wasm_bindgen_omit_default_module_path());
    assert!(!p.wasm_bindgen_split_linked_modules());
    assert_eq!(p.wasm_opt_args(), None);
}

#[test]
fn optimized_defaults() {
    for p in [
        CargoWasmPackProfile::default_release(),
        CargoWasmPackProfile::default_profiling(),
        CargoWasmPackProfile::default_custom(),
    ] {
        assert!(!p.wasm_bindgen_debug_js_glue());
        assert!(p.wasm_bindgen_demangle_name_section());
        assert!(!p.wasm_bindgen_dwarf_debug_info());
        assert!(!p.wasm_bindgen_omit_default_module_path());
        assert!(!p.wasm_bindgen_split_linked_modules());
        assert_eq!(p.wasm_opt_args(), Some(vec!["-O".to_string()]));
    }
}

#[test]
fn default_profiles_hold_the_four_defaults() {
    let profiles = CargoWasmPackProfiles::default();
    assert!(profiles.dev.wasm_bindgen_debug_js_glue());
    assert!(!profiles.release.wasm_bindgen_debug_js_glue());
    assert_eq!(profiles.dev.wasm_opt_args(), None);
    assert_eq!(profiles.profiling.wasm_opt_args(), Some(vec!["-O".to_string()]));
    assert_eq!(profiles.custom.wasm_opt_args(), Some(vec!["-O".to_string()]));
}

#[test]
fn unset_profile_has_nothing() {
    let p = unset();
    assert_eq!(p.wasm_bindgen.debug_js_glue, None);
    assert_eq!(p.wasm_bindgen.demangle_name_section, None);
    assert_eq!(p.wasm_bindgen.dwarf_debug_info, None);
    assert_eq!(p.wasm_bindgen.omit_default_module_path, None);
    assert_eq!(p.wasm_bindgen.split_linked_modules, None);
    assert!(p.wasm_opt.is_none());
    assert_eq!(p.wasm_opt_args(), None);
}

#[test]
fn defaults_fill_what_is_unset() {
    let mut p = unset();
    p.update_with_defaults(&CargoWasmPackProfile::default_release());
    assert!(!p.wasm_bindgen_debug_js_glue());
    assert!(p.wasm_bindgen_demangle_name_section());
    assert!(!p.wasm_bindgen_dwarf_debug_info());
    assert!(!p.wasm_bindgen_omit_default_module_path());
    assert!(!p.wasm_bindgen_split_linked_modules());
    assert_eq!(p.wasm_opt_args(), Some(vec!["-O".to_string()]));
}

#[test]
fn defaults_keep_what_is_set() {
    let mut p = CargoWasmPackProfile {
        wasm_bindgen: CargoWasmPackProfileWasmBindgen {
            debug_js_glue: Some(false),
            demangle_name_section: None,
            dwarf_debug_info: Some(true),
            omit_default_module_path: None,
            split_linked_modules: Some(true),
        },
        wasm_opt: Some(CargoWasmPackProfileWasmOpt::ExplicitArgs(vec![
            "-O4".to_string(),
            "--debuginfo".to_string(),
        ])),
    };
    p.update_with_defaults(&CargoWasmPackProfile::default_dev());
    assert!(!p.wasm_bindgen_debug_js_glue());
    assert!(p.wasm_bindgen_demangle_name_section());
    assert!(p.wasm_bindgen_dwarf_debug_info());
    assert!(!p.wasm_bindgen_omit_default_module_path());
    assert!(p.wasm_bindgen_split_linked_modules());
    assert_eq!(
        p.wasm_opt_args(),
        Some(vec!["-O4".to_string(), "--debuginfo".to_string()])
    );
}

#[test]
fn dev_defaults_leave_wasm_opt_unset() {
    let mut p = unset();
    p.update_with_defaults(&CargoWasmPackProfile::default_dev());
    assert!(p.wasm_opt.is_none());
    assert_eq!(p.wasm_opt_args(), None);
}

#[test]
fn wasm_opt_switched_off_or_on() {
    let mut p = CargoWasmPackProfile::default_release();
    p.wasm_opt = Some(CargoWasmPackProfileWasmOpt::Enabled(false));
    assert_eq!(p.wasm_opt_args(), None);
    p.wasm_opt = Some(CargoWasmPackProfileWasmOpt::default());
    assert_eq!(p.wasm_opt_args(), None);
    p.wasm_opt = Some(CargoWasmPackProfileWasmOpt::Enabled(true));
    assert_eq!(p.wasm_opt_args(), Some(vec!["-O".to_string()]));
    p.wasm_opt = Some(CargoWasmPackProfileWasmOpt::ExplicitArgs(Vec::new()));
    assert_eq!(p.wasm_opt_args(), Some(Vec::new()));
}

#[test]
fn suspect_keys() {
    assert_eq!(CARGO_METADATA_KEY, "package.metadata.wasm-js");
    assert!(is_suspect_unused_key("package.metadata.wasm-js.profile.dev.wasm-opt-args"));
    assert!(is_suspect_unused_key("package.metadata.wasm-js"));
    // one edit away from the table's name
    assert!(is_suspect_unused_key("package.metadata.wasm-jz"));
    assert!(is_suspect_unused_key("package.metadata.wasm_js"));
    assert!(is_suspect_unused_key("package.metadata.wasm-j"));
    assert!(is_suspect_unused_key("package.metadata.wasm-jss"));
    assert!(is_suspect_unused_key("package.metadata.xwasm-js"));
}

#[test]
fn keys_that_are_not_suspect() {
    // two edits away
    assert!(!is_suspect_unused_key("package.metadata.wasm-xx"));
    assert!(!is_suspect_unused_key("package.metadata.wasm"));
    assert!(!is_suspect_unused_key("package.metadata.docs.rs"));
    // names the tool but stands elsewhere
    assert!(!is_suspect_unused_key("workspace.metadata.wasm-js"));
    assert!(!is_suspect_unused_key("package.metadat.wasm-js"));
    assert!(!is_suspect_unused_key(""));
}

fn key_set(keys: &[&str]) -> UnusedKeys {
    let mut set = UnusedKeys::new();
    for key in keys {
        set.insert(key.to_string());
    }
    set
}

#[test]
fn keys_stand_once_and_in_the_order_of_strings() {
    let mut set = UnusedKeys::new();
    assert_eq!(set.as_vec(), &Vec::<String>::new());
    assert!(set.insert("b".to_string()));
    assert!(set.insert("a".to_string()));
    assert!(set.insert("c".to_string()));
    assert!(!set.insert("b".to_string()));
    assert!(set.insert("ab".to_string()));
    assert!(set.insert("".to_string()));
    assert!(!set.insert("".to_string()));
    assert!(set.insert("B".to_string()));
    assert!(set.insert("é".to_string()));
    assert!(set.insert("z".to_string()));
    assert!(!set.insert("é".to_string()));
    assert_eq!(
        set.as_vec(),
        &vec!["", "B", "a", "ab", "b", "c", "z", "é"]
            .into_iter()
            .map(String::from)
            .collect::<Vec<String>>()
    );
}

#[test]
fn key_set_agrees_with_a_btree_set() {
    let keys = [
        "package.metadata.wasm-js.z", "package.metadata.wasm-js", "package.metadata.wasm-js.a.b",
        "package.metadata.wasm-js.a", "package.metadata.wasm_js", "package.metadata.wasm-js.a",
        "package.metadata.wasm-js.Z", "package.metadata.wasm-js.a-", "package.metadata.wasm-js.",
    ];
    let mut expected = std::collections::BTreeSet::new();
    let mut set = UnusedKeys::new();
    for key in keys {
        assert_eq!(set.insert(key.to_string()), expected.insert(key.to_string()));
    }
    assert_eq!(set.as_vec(), &expected.into_iter().collect::<Vec<String>>());
}

#[test]
fn only_suspect_keys_are_recorded() {
    let mut set = UnusedKeys::new();
    record_unused_key(&mut set, "package.metadata.wasm-js.profile.dev.foo".to_string());
    record_unused_key(&mut set, "package.metadata.docs".to_string());
    record_unused_key(&mut set, "package.metadata.wasm_js".to_string());
    record_unused_key(&mut set, "dependencies.wasm-js".to_string());
    record_unused_key(&mut set, "package.metadata.wasm-js.profile.dev.foo".to_string());
    record_unused_key(&mut set, "package.metadata.wasm-js.a".to_string());
    assert_eq!(
        set.as_vec(),
        &vec![
            "package.metadata.wasm-js.a".to_string(),
            "package.metadata.wasm-js.profile.dev.foo".to_string(),
            "package.metadata.wasm_js".to_string(),
        ]
    );
}

#[test]
fn warnings_name_each_key() {
    let keys = ManifestAndUnsedKeys {
        manifest: manifest("a"),
        unused_keys: key_set(&["package.metadata.wasm_js", "package.metadata.wasm-js.foo"]),
    };
    assert_eq!(
        CrateData::warn_for_unused_keys(&keys),
        vec![
            "\"package.metadata.wasm-js.foo\" is an unknown key and will be ignored. Please check your Cargo.toml.".to_string(),
            "\"package.metadata.wasm_js\" is an unknown key and will be ignored. Please check your Cargo.toml.".to_string(),
        ]
    );
    let none = ManifestAndUnsedKeys {
        manifest: manifest("a"),
        unused_keys: UnusedKeys::new(),
    };
    assert_eq!(CrateData::warn_for_unused_keys(&none), Vec::<String>::new());
}

#[test]
fn current_package_is_the_first_with_name_and_path() {
    let data = metadata(vec![
        package("my-crate", vec![target("elsewhere", &["cdylib"], &["cdylib"])], false),
        package("other", vec![], true),
        package("my-crate", vec![target("my-lib", &["cdylib", "rlib"], &["cdylib", "rlib"])], true),
        package("my-crate", vec![target("third", &["cdylib"], &["cdylib"])], true),
    ]);
    let crate_data = CrateData::new(data, manifest("my-crate"), None).unwrap();
    assert_eq!(crate_data.crate_name(), "my_lib");
    assert_eq!(crate_data.name_prefix(), "my_lib");
    assert_eq!(crate_data.check_crate_config(), Ok(()));
    assert_eq!(crate_data.crate_readme(), Some("README.md".to_string()));
    assert_eq!(crate_data.target_directory(), "/ws/target");
    assert_eq!(crate_data.workspace_root(), "/ws");
}

#[test]
fn package_not_found() {
    let data = metadata(vec![
        package("my-crate", vec![], false),
        package("other", vec![], true),
    ]);
    match CrateData::new(data, manifest("my-crate"), None) {
        Err(e) => {
            assert_eq!(e, ManifestError::PackageNotFound);
            assert_eq!(e.message(), "failed to find package in metadata");
        }
        Ok(_) => panic!("no package has the name and the path"),
    }
    assert!(CrateData::new(metadata(vec![]), manifest("x"), None).is_err());
}

#[test]
fn crate_name_falls_back_to_the_package() {
    let data = metadata(vec![package(
        "my-little-crate",
        vec![target("a-bin", &["bin"], &["bin"]), target("a-lib", &["lib"], &["lib"])],
        true,
    )]);
    let crate_data = CrateData::new(data, manifest("my-little-crate"), None).unwrap();
    assert_eq!(crate_data.crate_name(), "my_little_crate");
    assert_eq!(crate_data.check_crate_config(), Err(ManifestError::NotCdylib));
    assert_eq!(
        ManifestError::NotCdylib.message(),
        "crate-type must be cdylib to compile to wasm32-unknown-unknown. Add the following to your Cargo.toml file:\n\n[lib]\ncrate-type = [\"cdylib\", \"rlib\"]"
    );
}

#[test]
fn crate_name_takes_the_first_cdylib_target() {
    let data = metadata(vec![package(
        "pkg",
        vec![
            target("tool", &["bin"], &["bin"]),
            target("first-one", &["rlib", "cdylib"], &["rlib"]),
            target("second-one", &["cdylib"], &["cdylib"]),
        ],
        true,
    )]);
    let crate_data = CrateData::new(data, manifest("pkg"), Some("custom-name".to_string())).unwrap();
    assert_eq!(crate_data.crate_name(), "first_one");
    assert_eq!(crate_data.name_prefix(), "custom-name");
    assert_eq!(crate_data.check_crate_config(), Ok(()));
}

#[test]
fn cdylib_needs_kind_and_crate_type_on_one_target() {
    let data = metadata(vec![package(
        "pkg",
        vec![
            target("a", &["cdylib"], &["rlib"]),
            target("b", &["rlib"], &["cdylib"]),
        ],
        true,
    )]);
    let crate_data = CrateData::new(data, manifest("pkg"), None).unwrap();
    assert_eq!(crate_data.check_crate_config(), Err(ManifestError::NotCdylib));
}

#[test]
fn readme_may_be_missing() {
    let mut pkg = package("pkg", vec![], true);
    pkg.readme = None;
    let crate_data = CrateData::new(metadata(vec![pkg]), manifest("pkg"), None).unwrap();
    assert_eq!(crate_data.crate_readme(), None);
}

#[test]
fn configured_profile_follows_the_build_profile() {
    let mut m = manifest("pkg");
    m.package.metadata.wasm_js.profile.custom.wasm_opt =
        Some(CargoWasmPackProfileWasmOpt::ExplicitArgs(vec!["-Oz".to_string()]));
    m.package.metadata.wasm_js.profile.profiling.wasm_bindgen.dwarf_debug_info = Some(true);
    let crate_data =
        CrateData::new(metadata(vec![package("pkg", vec![], true)]), m, None).unwrap();
    assert!(crate_data.configured_profile(BuildProfile::Dev).wasm_bindgen_debug_js_glue());
    assert!(!crate_data.configured_profile(BuildProfile::Release).wasm_bindgen_debug_js_glue());
    assert!(crate_data
        .configured_profile(BuildProfile::Profiling)
        .wasm_bindgen_dwarf_debug_info());
    assert!(!crate_data
        .configured_profile(BuildProfile::Release)
        .wasm_bindgen_dwarf_debug_info());
    assert_eq!(
        crate_data
            .configured_profile(BuildProfile::Custom("anything".to_string()))
            .wasm_opt_args(),
        Some(vec!["-Oz".to_string()])
    );
}
