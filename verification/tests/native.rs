use eucalyptus_core::animation::{available_animations, checked_animation_index, index_from_string};
use eucalyptus_core::mesh::{
    is_probably_model_uri, matches_material_label, model_format, model_source, ModelFormat, ModelSource, resolve_target_material_index, resolve_target_material_name, MaterialLabel,
};
use eucalyptus_core::native::{native_call_result, DropbearNativeError};

#[test]
fn native_error_codes() {
    assert_eq!(DropbearNativeError::Success.code(), 0);
    assert_eq!(DropbearNativeError::UnsignedGenericError.code(), 65535);
    assert_eq!(DropbearNativeError::GenericError.code(), 1);
    assert_eq!(DropbearNativeError::MissingComponent.code(), -25);
    assert_eq!(DropbearNativeError::InvalidEntity.code(), -100);
    assert_eq!(DropbearNativeError::InvalidUTF8.code(), -108);
    assert_eq!(DropbearNativeError::UnknownError.code(), -1274);
    assert_eq!(
        DropbearNativeError::MethodNotFound { name: "m".to_string(), sig: "()V".to_string() }.code(),
        -203
    );
    assert_eq!(DropbearNativeError::JniCall("x".to_string()).code(), -214);
}

#[test]
fn native_call_result_messages() {
    assert_eq!(native_call_result(0, "init", None), Ok(()));
    assert_eq!(
        native_call_result(3, "init", None),
        Err("Native script init failed ()".to_string())
    );
    assert_eq!(
        native_call_result(-1, "update", Some("boom".to_string())),
        Err("Native script update failed (: boom)".to_string())
    );
}

#[test]
fn animation_index_checks() {
    assert_eq!(checked_animation_index(None, 3), Ok(None));
    assert_eq!(checked_animation_index(Some(2), 3), Ok(Some(2)));
    assert_eq!(checked_animation_index(Some(3), 3), Err(DropbearNativeError::InvalidArgument));
    assert_eq!(checked_animation_index(Some(-1), 3), Err(DropbearNativeError::InvalidArgument));
    assert_eq!(checked_animation_index(Some(7), 0), Ok(Some(7)));
}

#[test]
fn animation_lookup_by_name() {
    let names = vec!["idle".to_string(), "run".to_string(), "run".to_string()];
    assert_eq!(index_from_string(&names, "run"), Some(1));
    assert_eq!(index_from_string(&names, "jump"), None);
    let own = vec!["walk".to_string()];
    assert_eq!(available_animations(&own, Some(names.clone())), own);
    assert_eq!(available_animations(&Vec::new(), Some(names.clone())), names);
    assert!(available_animations(&Vec::new(), None).is_empty());
}

#[test]
fn material_resolution() {
    let mats = vec![
        MaterialLabel { name: "body".to_string(), texture_tag: None },
        MaterialLabel { name: "wheel".to_string(), texture_tag: Some("tyre".to_string()) },
        MaterialLabel { name: "tyre".to_string(), texture_tag: None },
    ];
    assert!(matches_material_label(&mats[1], "tyre"));
    assert!(!matches_material_label(&mats[0], "tyre"));
    assert_eq!(resolve_target_material_index(&mats, "tyre"), Some(1));
    assert_eq!(resolve_target_material_name(&mats, "tyre"), Some("wheel".to_string()));
    assert_eq!(resolve_target_material_index(&mats, "glass"), None);
    assert_eq!(resolve_target_material_name(&mats, "body"), Some("body".to_string()));
}

#[test]
fn model_uris_by_extension() {
    assert!(is_probably_model_uri("euca://models/crate.GLB"));
    assert!(is_probably_model_uri("tree.gltf"));
    assert!(is_probably_model_uri("a.Obj"));
    assert!(is_probably_model_uri(".fbx"));
    assert!(!is_probably_model_uri("texture.png"));
    assert!(!is_probably_model_uri("glb"));
    assert!(!is_probably_model_uri(""));
}

#[test]
fn model_sources_and_formats() {
    assert_eq!(model_source(Some(5), true), ModelSource::Asset(5));
    assert_eq!(model_source(None, true), ModelSource::Procedural);
    assert_eq!(model_source(None, false), ModelSource::Empty);
    assert_eq!(model_format("/p/compiled/ship.EUCMDL"), ModelFormat::Compiled);
    assert_eq!(model_format("/p/res/ship.glb"), ModelFormat::Imported);
    assert_eq!(model_format("/p/res/ship"), ModelFormat::Imported);
}
