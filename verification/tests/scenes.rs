use eucalyptus_core::camera::{choose_active_camera, CameraChoice, CameraComponent, CameraType, DebugCamera, PlayerCamera};
use eucalyptus_core::scene::{load_scene_into_memory, unload_scene, SceneConfig, SceneSettings};

fn scene(name: &str, tag: u32) -> SceneConfig<u32, u32> {
    SceneConfig::new(name.to_string(), format!("/{}.eucs", name), tag)
}

#[test]
fn unload_removes_every_copy() {
    let mut cache = vec![scene("a", 1), scene("b", 2), scene("a", 3)];
    assert!(unload_scene(&mut cache, "a"));
    assert_eq!(cache.len(), 1);
    assert_eq!(cache[0].scene_name, "b");
    assert!(!unload_scene(&mut cache, "a"));
    assert_eq!(cache.len(), 1);
}

#[test]
fn load_puts_scene_first() {
    let mut cache = vec![scene("a", 1), scene("b", 2)];
    let r: Result<(), String> = load_scene_into_memory(&mut cache, "b", Ok(scene("b", 9)));
    assert!(r.is_ok());
    let names: Vec<_> = cache.iter().map(|s| (s.scene_name.clone(), s.physics_state)).collect();
    assert_eq!(names, vec![("b".to_string(), 9), ("a".to_string(), 1)]);
}

#[test]
fn failed_load_still_unloads() {
    let mut cache = vec![scene("a", 1), scene("b", 2)];
    let r = load_scene_into_memory(&mut cache, "b", Err("missing".to_string()));
    assert_eq!(r, Err("missing".to_string()));
    assert_eq!(cache.len(), 1);
    assert_eq!(cache[0].scene_name, "a");
}

#[test]
fn settings_and_cameras() {
    assert_eq!(SceneSettings::new(), SceneSettings { preloaded: false, show_hitboxes: false });
    let c = CameraComponent::new();
    assert_eq!(c.camera_type, CameraType::Normal);
    assert!(!c.starting_camera);
    assert_eq!(PlayerCamera::new().camera_type, CameraType::Player);
    assert_eq!(DebugCamera::new().camera_type, CameraType::Debug);
}

#[test]
fn camera_selection() {
    let start = CameraComponent { camera_type: CameraType::Normal, starting_camera: true };
    let cams = vec![(1, CameraComponent::new()), (2, DebugCamera::new()), (3, start), (4, DebugCamera::new())];
    assert_eq!(choose_active_camera(&cams, true), CameraChoice::Existing(3));
    assert_eq!(choose_active_camera(&cams, false), CameraChoice::Existing(2));
    assert_eq!(choose_active_camera(&vec![(1, CameraComponent::new())], false), CameraChoice::CreateViewport);
}
