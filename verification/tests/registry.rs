use eucalyptus_core::components::{ComponentDescriptor, DisabilityFlags};
use eucalyptus_core::registry::ComponentRegistry;

fn descriptor(fqtn: &str, short: &str, category: Option<&str>) -> ComponentDescriptor {
    ComponentDescriptor {
        fqtn: fqtn.to_string(),
        short_name: short.to_string(),
        category: category.map(|c| c.to_string()),
        description: None,
        disabled_flags: DisabilityFlags::Disabled,
        internal: false,
    }
}

fn sample() -> ComponentRegistry {
    let mut r = ComponentRegistry::new();
    r.register(1, 100, 11, descriptor("core::MeshRenderer", "MeshRenderer", Some("Rendering")));
    r.register(2, 0, 12, descriptor("core::Light", "Light", Some("Rendering")));
    r.register(3, 300, 13, descriptor("core::Camera", "Camera", None));
    r
}

#[test]
fn registry_starts_empty() {
    let r = ComponentRegistry::default();
    assert_eq!(r.count(), 0);
    assert!(!r.is_registered(1));
    assert!(r.all_descriptors().is_empty());
    assert!(r.categories().is_empty());
    assert!(r.get_descriptor_by_fqtn("core::Light").is_none());
}

#[test]
fn registry_lookups_by_key_and_name() {
    let r = sample();
    assert_eq!(r.count(), 3);
    assert!(r.is_registered(2));
    assert!(!r.is_registered(4));
    assert_eq!(r.get_descriptor(3).unwrap().short_name, "Camera");
    assert_eq!(r.get_type_id("core::Light"), Some(2));
    assert_eq!(r.get_type_id("core::Missing"), None);
    assert_eq!(r.get_descriptor_by_fqtn("core::MeshRenderer").unwrap().short_name, "MeshRenderer");
}

#[test]
fn registry_categories_keep_registration_order() {
    let r = sample();
    let names: Vec<String> =
        r.descriptors_in_category("Rendering").iter().map(|d| d.short_name.clone()).collect();
    assert_eq!(names, vec!["MeshRenderer".to_string(), "Light".to_string()]);
    assert!(r.descriptors_in_category("Physics").is_empty());
    assert_eq!(r.categories(), vec!["Rendering".to_string()]);
}

#[test]
fn registry_numeric_ids_follow_type_hashes() {
    let r = sample();
    let ids: Vec<u64> = r.iter_available_components().iter().map(|(id, _)| *id).collect();
    assert_eq!(ids, vec![100, 1, 300]);
    assert_eq!(r.type_id_from_numeric_id(1), Some(2));
    assert_eq!(r.type_id_from_numeric_id(0), None);
    assert_eq!(r.get_descriptor_by_numeric_id(300).unwrap().short_name, "Camera");
    assert_eq!(r.id_for_component(12), Some(1));
    assert_eq!(r.id_for_component(99), None);
}

#[test]
fn registry_register_again_replaces_descriptor() {
    let mut r = sample();
    r.register(3, 300, 13, descriptor("core::Camera", "PlayerCamera", Some("Rendering")));
    assert_eq!(r.count(), 3);
    assert_eq!(r.get_descriptor(3).unwrap().short_name, "PlayerCamera");
    let all: Vec<String> = r.all_descriptors().iter().map(|d| d.short_name.clone()).collect();
    assert_eq!(all, vec!["MeshRenderer".to_string(), "Light".to_string(), "PlayerCamera".to_string()]);
    assert_eq!(r.descriptors_in_category("Rendering").len(), 3);
}

#[test]
fn descriptor_clone_keeps_fields() {
    let d = descriptor("core::Camera", "Camera", Some("Rendering"));
    let c = d.clone();
    assert_eq!(c.fqtn, d.fqtn);
    assert_eq!(c.category, d.category);
    assert_eq!(c.disabled_flags, DisabilityFlags::Disabled);
}
