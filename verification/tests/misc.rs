use eucalyptus_core::components::{ColliderShapeKey, ColliderShapeType};
use eucalyptus_core::components::{
    numeric_id_from_hash, skips_update, DisabilityFlags, EntityStatus, LogLevel, SerializedEntityStatus,
};
use eucalyptus_core::input::{button_from_ordinal, map_int_to_gamepad_button, map_ordinal_to_mouse_button, GamepadButton, MouseButton};
use eucalyptus_core::runtime::{project_version_or_default, resolve_initial_scene, settings_for_population, RuntimeError, RuntimeSettings};
use eucalyptus_core::states::{LoadProgress, ResourceType, WorldLoadingStatus};
use eucalyptus_core::types::{CollisionEvent, CollisionEventType, IndexNative, NCollider};

#[test]
fn update_skipping() {
    let hidden = Some(EntityStatus { hidden: true, disabled: false });
    let disabled = Some(EntityStatus { hidden: false, disabled: true });
    assert!(!skips_update(DisabilityFlags::Disabled, None));
    assert!(!skips_update(DisabilityFlags::Disabled, hidden));
    assert!(skips_update(DisabilityFlags::Disabled, disabled));
    assert!(skips_update(DisabilityFlags::Hidden, hidden));
    assert!(!skips_update(DisabilityFlags::Never, disabled));
    assert_eq!(numeric_id_from_hash(0), 1);
    assert_eq!(numeric_id_from_hash(77), 77);
}

#[test]
fn entity_status_round_trip() {
    let ser = SerializedEntityStatus { hidden: true, disabled: false };
    assert_eq!(EntityStatus::from_serialized(&ser).save(), ser);
}

#[test]
fn input_ordinals() {
    assert_eq!(map_ordinal_to_mouse_button(0), Some(MouseButton::Left));
    assert_eq!(map_ordinal_to_mouse_button(4), Some(MouseButton::Forward));
    assert_eq!(map_ordinal_to_mouse_button(9), Some(MouseButton::Other(9)));
    assert_eq!(map_ordinal_to_mouse_button(-1), None);
    assert_eq!(map_int_to_gamepad_button(1), Some(GamepadButton::South));
    assert_eq!(map_int_to_gamepad_button(19), Some(GamepadButton::DPadRight));
    assert_eq!(map_int_to_gamepad_button(20), None);
    assert_eq!(button_from_ordinal(12), Ok(GamepadButton::Start));
    assert_eq!(button_from_ordinal(-3), Err(()));
}

#[test]
fn runtime_configuration() {
    assert_eq!(resolve_initial_scene(&Some("menu".into()), &vec![]).unwrap(), "menu");
    assert_eq!(resolve_initial_scene(&None, &vec!["first".into(), "second".into()]).unwrap(), "first");
    assert!(matches!(resolve_initial_scene(&None, &vec![]), Err(RuntimeError::NoScene)));
    let v = project_version_or_default("1.2.3-rc.1+b5");
    assert_eq!((v.major, v.minor, v.patch, v.pre.as_str(), v.build.as_str()), (1, 2, 3, "rc.1", "b5"));
    let d = project_version_or_default("not a version");
    assert_eq!((d.major, d.minor, d.patch), (0, 1, 0));
    assert_eq!(d.to_text(), "0.1.0");
    let s = settings_for_population(&RuntimeSettings::new(), &"start".to_string());
    assert_eq!(s.initial_scene, Some("start".to_string()));
}

#[test]
fn names_and_events() {
    assert_eq!(LogLevel::default().as_str(), "INFO");
    assert_eq!(LogLevel::ERROR.as_str(), "ERROR");
    assert_eq!(ResourceType::Shader.as_str(), "shaders");
    let c1 = NCollider { index: IndexNative { index: 1, generation: 2 }, entity_id: 10, id: 1 };
    let c2 = NCollider { index: IndexNative { index: 3, generation: 4 }, entity_id: 20, id: 3 };
    let e = CollisionEvent { event_type: CollisionEventType::Started, collider1: c1, collider2: c2, flags: 0 };
    assert_eq!((e.collider1_entity_id(), e.collider2_entity_id()), (10, 20));
}

#[test]
fn collider_shape_names() {
    assert_eq!(ColliderShapeType::Box.shape_type_name(), "Box");
    assert_eq!(ColliderShapeType::Cone.shape_type_name(), "Cone");
    let key = ColliderShapeKey::Sphere { radius_bits: 0 };
    assert_eq!(key.shape_type().shape_type_name(), "Sphere");
}

#[test]
fn load_progress_follows_statuses() {
    let mut p = LoadProgress { current: 0, total: 0, message: String::new() };
    p.apply(WorldLoadingStatus::Idle);
    assert_eq!(p.message, "Idle");
    p.apply(WorldLoadingStatus::LoadingEntity { index: 2, name: "Crate".to_string(), total: 5 });
    assert_eq!((p.current, p.total), (2, 5));
    assert_eq!(p.message, "Loading entity: Crate");
    p.apply(WorldLoadingStatus::Completed);
    assert_eq!((p.current, p.total), (5, 5));
    assert_eq!(p.message, "Completed");
}
