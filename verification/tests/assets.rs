use eucalyptus_core::metadata::{
    asset_type_for_extension, content_hash, detect_asset_type, eucmeta_path, new_asset_entry,
    watch_step, AssetType, MetadataError, WatchStep,
};
use eucalyptus_core::resource::ResourceReference;
use eucalyptus_core::ser::{EucalyptusTextureRef, SerializedType, Template};

#[test]
fn detects_types_by_extension_ignoring_case() {
    assert_eq!(detect_asset_type("models/ship.OBJ"), Some(AssetType::Mesh));
    assert_eq!(detect_asset_type("a/b.glb"), Some(AssetType::Mesh));
    assert_eq!(detect_asset_type("tex/albedo.Png"), Some(AssetType::Texture));
    assert_eq!(detect_asset_type("sfx/boom.mp3"), Some(AssetType::Audio));
    assert_eq!(detect_asset_type("scenes/main.eucs"), Some(AssetType::Scene));
    assert_eq!(detect_asset_type("src/Player.kts"), Some(AssetType::Script));
    assert_eq!(detect_asset_type("readme.txt"), None);
    assert_eq!(detect_asset_type("noext"), None);
    assert_eq!(detect_asset_type(".hidden"), None);
}

#[test]
fn extension_table() {
    for e in ["obj", "gltf", "glb", "fbx", "eucmdl", "eucbin"] {
        assert_eq!(asset_type_for_extension(e), Some(AssetType::Mesh));
    }
    for e in ["png", "jpg", "jpeg", "webp", "hdr", "tga", "bmp", "exr"] {
        assert_eq!(asset_type_for_extension(e), Some(AssetType::Texture));
    }
    for e in ["wav", "ogg", "flac", "mp3"] {
        assert_eq!(asset_type_for_extension(e), Some(AssetType::Audio));
    }
    assert_eq!(asset_type_for_extension("KT"), Some(AssetType::Script));
    assert_eq!(asset_type_for_extension("mat"), None);
}

#[test]
fn sidecar_path_appends_suffix() {
    assert_eq!(eucmeta_path("/p/resources/a.png"), "/p/resources/a.png.eucmeta");
}

#[test]
fn content_hash_of_empty_input() {
    let h = content_hash(&[]);
    assert_eq!(h[0], 0xe3);
    assert_eq!(h[1], 0xb0);
    assert_eq!(h[31], 0x55);
}

#[test]
fn new_entry_is_relative_to_project_root() {
    let e = new_asset_entry("/proj/resources/ship.obj", "/proj", [7u8; 32], 42, std::time::UNIX_EPOCH)
        .unwrap();
    assert_eq!(e.uuid, 42);
    assert_eq!(e.name, "ship");
    assert_eq!(e.asset_type, AssetType::Mesh);
    match &e.location {
        ResourceReference::File(p) => assert_eq!(p, "resources/ship.obj"),
        other => panic!("unexpected location {:?}", other),
    }
    assert!(e.compiled_path.is_none());
    assert!(e.dependencies.is_empty());
    assert!(!e.is_stale(&[7u8; 32]));
    assert!(e.is_stale(&[8u8; 32]));
}

#[test]
fn new_entry_outside_root_keeps_path() {
    let e = new_asset_entry("/elsewhere/a.wav", "/proj", [0u8; 32], 1, std::time::UNIX_EPOCH).unwrap();
    match &e.location {
        ResourceReference::File(p) => assert_eq!(p, "/elsewhere/a.wav"),
        other => panic!("unexpected location {:?}", other),
    }
}

#[test]
fn new_entry_rejects_unknown_type() {
    match new_asset_entry("/proj/notes.txt", "/proj", [0u8; 32], 1, std::time::UNIX_EPOCH) {
        Err(MetadataError::UnknownAssetType { path }) => assert_eq!(path, "/proj/notes.txt"),
        Ok(_) => panic!("expected an error"),
    }
}

#[test]
fn references_resolve_against_root() {
    let e = new_asset_entry("/proj/a.png", "/proj", [0u8; 32], 1, std::time::UNIX_EPOCH).unwrap();
    match e.to_reference("/root/dir") {
        Some(ResourceReference::File(p)) => assert_eq!(p, "/root/dir/a.png"),
        other => panic!("unexpected {:?}", other),
    }
    match e.to_embedded_reference(&[1, 2, 3]) {
        ResourceReference::Embedded(b) => assert_eq!(b, vec![1, 2, 3]),
        other => panic!("unexpected {:?}", other),
    }
}

#[test]
fn reference_kinds() {
    let f = ResourceReference::File("x".to_string());
    let e = ResourceReference::Embedded(vec![9]);
    let p = ResourceReference::Packed { offset: 1, length: 2 };
    let g = ResourceReference::Procedural;
    assert!(f.is_file_backed() && !f.is_in_memory());
    assert!(!e.is_file_backed() && e.is_in_memory());
    assert!(p.is_in_memory() && g.is_in_memory());
    assert_eq!(e.as_embedded_bytes(), Some(&[9u8][..]));
    assert_eq!(f.as_embedded_bytes(), None);
}

#[test]
fn serialized_extensions() {
    assert_eq!(SerializedType::iter_extensions(), vec!["eucbin".to_string(), "eucmdl".to_string()]);
    let mut t = Template::new("tpl".to_string());
    t.update();
    assert_eq!(t.label, "tpl");
    match EucalyptusTextureRef::from_uuid(5) {
        EucalyptusTextureRef::AssetUuid(u) => assert_eq!(u, 5),
        _ => panic!("expected a uuid reference"),
    }
}

#[test]
fn watcher_steps() {
    assert_eq!(watch_step("res/a.png", false), WatchStep::CreateEntry);
    assert_eq!(watch_step("res/a.png", true), WatchStep::CheckEntry);
    assert_eq!(watch_step("res/m.GLB", true), WatchStep::CheckEntry);
    assert_eq!(watch_step("res/a.png.eucmeta", true), WatchStep::Skip);
    assert_eq!(watch_step("res/notes.txt", false), WatchStep::Skip);
    assert_eq!(watch_step("res/noext", false), WatchStep::Skip);
}

#[test]
fn refresh_updates_only_stale_entries() {
    let t0 = std::time::SystemTime::UNIX_EPOCH;
    let t1 = t0 + std::time::Duration::from_secs(60);
    let mut e = match new_asset_entry("/p/res/a.png", "/p", [1u8; 32], 7, t0) {
        Ok(e) => e,
        Err(_) => panic!("a png is an asset"),
    };
    assert!(!e.refresh([1u8; 32], t1));
    assert_eq!(e.import_time, t0);
    assert!(e.refresh([2u8; 32], t1));
    assert_eq!(e.source_hash, [2u8; 32]);
    assert_eq!(e.import_time, t1);
    assert_eq!(e.uuid, 7);
}
