use eucalyptus_core::bundle::{Arch, BuildProfile, BundleManifest, NativeLib, Platform, SemVersion};
use eucalyptus_core::plugin::{
    arch_from_target, check_content_hash, contents_digest_hex, hashed_entry_names, platform_from_os,
    plugin_layout, safe_extract_path, select_native_lib, LoadedPlugin, PluginError, PluginLayout,
    PluginRegistry,
};

fn manifest(name: &str) -> BundleManifest {
    BundleManifest {
        name: name.to_string(),
        version: SemVersion::new(1, 0, 0),
        description: None,
        authors: vec![],
        license: None,
        profile: BuildProfile::Release,
        engine_api_version: "^1".to_string(),
        native_libs: vec![],
        jar: None,
        assets: vec![],
        dependencies: vec![],
        content_hash: None,
    }
}

#[test]
fn output_filename_follows_convention() {
    assert_eq!(manifest("surface-nets").output_filename(), "surface-nets-1.0.0-release.eucplugin");
    let mut m = manifest("x");
    m.version = SemVersion { major: 2, minor: 10, patch: 3, pre: "beta.1".into(), build: "b7".into() };
    m.profile = BuildProfile::Debug;
    assert_eq!(m.output_filename(), "x-2.10.3-beta.1+b7-debug.eucplugin");
}

#[test]
fn extract_paths_reject_traversal() {
    assert_eq!(safe_extract_path("/base", "libs/linux/a.so").unwrap(), "/base/libs/linux/a.so");
    assert_eq!(safe_extract_path("/base", "./lib/x.jar").unwrap(), "/base/lib/x.jar");
    match safe_extract_path("/base", "../evil") {
        Err(PluginError::UnsafePath { entry }) => assert_eq!(entry, "../evil"),
        other => panic!("unexpected {:?}", other),
    }
    assert!(safe_extract_path("/base", "/etc/passwd").is_err());
    assert!(safe_extract_path("/base", "a/../../b").is_err());
}

#[test]
fn platform_and_arch_names() {
    assert_eq!(platform_from_os("windows"), Platform::Windows);
    assert_eq!(platform_from_os("macos"), Platform::MacOs);
    assert_eq!(platform_from_os("linux"), Platform::Linux);
    assert_eq!(platform_from_os("freebsd"), Platform::Linux);
    assert_eq!(arch_from_target("aarch64"), Arch::Arm64);
    assert_eq!(arch_from_target("x86_64"), Arch::X64);
    assert_eq!(Platform::MacOs.as_str(), "macos");
    assert_eq!(Arch::Arm64.as_str(), "arm64");
}

#[test]
fn first_fitting_native_lib_wins() {
    let libs = vec![
        NativeLib { path: "w.dll".into(), platform: Platform::Windows, arch: Arch::X64 },
        NativeLib { path: "l_arm.so".into(), platform: Platform::Linux, arch: Arch::Arm64 },
        NativeLib { path: "any.so".into(), platform: Platform::All, arch: Arch::X64 },
        NativeLib { path: "l.so".into(), platform: Platform::Linux, arch: Arch::X64 },
    ];
    assert_eq!(select_native_lib(&libs, Platform::Linux, Arch::X64), Some("any.so".to_string()));
    assert_eq!(select_native_lib(&libs, Platform::Linux, Arch::Arm64), Some("l_arm.so".to_string()));
    assert_eq!(select_native_lib(&libs, Platform::MacOs, Arch::Arm64), None);
}

#[test]
fn layouts() {
    match plugin_layout("p", Some("a.jar".into()), None).unwrap() {
        PluginLayout::Jvm { jar } => assert_eq!(jar, "a.jar"),
        other => panic!("unexpected {:?}", other),
    }
    match plugin_layout("p", Some("a.jar".into()), Some("l.so".into())).unwrap() {
        PluginLayout::Hybrid { jar, lib } => assert_eq!((jar.as_str(), lib.as_str()), ("a.jar", "l.so")),
        other => panic!("unexpected {:?}", other),
    }
    match plugin_layout("p", None, None) {
        Err(PluginError::NoCompatibleArtifact { plugin }) => assert_eq!(plugin, "p"),
        other => panic!("unexpected {:?}", other),
    }
}

#[test]
fn hashed_entries_are_sorted_without_manifest() {
    let names = vec!["b.txt".to_string(), "manifest.eucc".to_string(), "a/z".to_string(), "B".to_string(), "a".to_string()];
    assert_eq!(hashed_entry_names(names), vec!["B", "a", "a/z", "b.txt"]);
}

#[test]
fn content_digest_matches_sha256() {
    let chunks = vec![b"ab".to_vec(), b"c".to_vec()];
    let hex = contents_digest_hex(&chunks);
    assert_eq!(hex, "ba7816bf8f01cfea414140de5dae2223b00361a396177a9cb410ff61f20015ad");
    assert!(check_content_hash("p", &None, &chunks).is_ok());
    assert!(check_content_hash("p", &Some(hex.clone()), &chunks).is_ok());
    match check_content_hash("p", &Some("00".into()), &chunks) {
        Err(PluginError::ContentHashMismatch { plugin }) => assert_eq!(plugin, "p"),
        other => panic!("unexpected {:?}", other),
    }
}

#[test]
fn registry_load_and_unload() {
    let mut r = PluginRegistry::new();
    assert!(!r.is_loaded("p"));
    r.insert(LoadedPlugin::Jvm { jar_path: "/x/p.jar".into(), manifest: manifest("p") });
    assert!(r.is_loaded("p"));
    r.insert(LoadedPlugin::NativeLib { library: 3, manifest: manifest("q") });
    match r.unload_plugin("p") {
        Some(LoadedPlugin::Jvm { jar_path, manifest }) => {
            assert_eq!(jar_path, "/x/p.jar");
            assert_eq!(manifest.name, "p");
        }
        other => panic!("unexpected {:?}", other),
    }
    assert!(!r.is_loaded("p"));
    assert!(r.is_loaded("q"));
    assert!(r.unload_plugin("p").is_none());
}
