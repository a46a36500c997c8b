use eucalyptus_core::properties::CustomProperties;

#[derive(Debug, Clone, PartialEq)]
enum TestValue {
    Text(String),
    Int(i64),
    Double(f64),
}

#[test]
fn properties_start_empty() {
    let p: CustomProperties<TestValue> = CustomProperties::default();
    assert!(p.custom_properties.is_empty());
    assert_eq!(p.next_id, 0);
    assert!(p.get_property("speed").is_none());
}

#[test]
fn set_property_creates_then_replaces() {
    let mut p: CustomProperties<TestValue> = CustomProperties::new();
    p.set_property("speed".to_string(), TestValue::Double(2.5));
    p.set_property("name".to_string(), TestValue::Text("crate".to_string()));
    assert_eq!(p.next_id, 2);
    assert_eq!(p.get_property("speed"), Some(&TestValue::Double(2.5)));
    p.set_property("speed".to_string(), TestValue::Int(3));
    assert_eq!(p.next_id, 2);
    assert_eq!(p.custom_properties.len(), 2);
    assert_eq!(p.custom_properties[0].id, 0);
    assert_eq!(p.get_property("speed"), Some(&TestValue::Int(3)));
    assert_eq!(p.get_property("name"), Some(&TestValue::Text("crate".to_string())));
}

#[test]
fn add_property_appends_even_for_a_used_key() {
    let mut p: CustomProperties<TestValue> = CustomProperties::new();
    p.add_property("hp".to_string(), TestValue::Int(10));
    p.add_property("hp".to_string(), TestValue::Int(20));
    assert_eq!(p.custom_properties.len(), 2);
    assert_eq!(p.custom_properties[1].id, 1);
    assert_eq!(p.next_id, 2);
    assert_eq!(p.get_property("hp"), Some(&TestValue::Int(10)));
    p.set_property("hp".to_string(), TestValue::Int(30));
    assert_eq!(p.custom_properties[0].value, TestValue::Int(30));
    assert_eq!(p.custom_properties[1].value, TestValue::Int(20));
}

#[test]
fn remove_property_drops_every_match_of_the_id() {
    let mut p: CustomProperties<TestValue> = CustomProperties::new();
    p.add_property("a".to_string(), TestValue::Int(1));
    p.add_property("b".to_string(), TestValue::Int(2));
    p.add_property("c".to_string(), TestValue::Int(3));
    p.remove_property(1);
    let keys: Vec<String> = p.custom_properties.iter().map(|q| q.key.clone()).collect();
    assert_eq!(keys, vec!["a".to_string(), "c".to_string()]);
    assert_eq!(p.next_id, 3);
    p.remove_property(42);
    assert_eq!(p.custom_properties.len(), 2);
}

#[test]
fn rename_property_by_id() {
    let mut p: CustomProperties<TestValue> = CustomProperties::new();
    p.add_property("a".to_string(), TestValue::Int(1));
    p.add_property("b".to_string(), TestValue::Int(2));
    assert!(p.rename_property(1, "speed".to_string()));
    assert_eq!(p.get_property("speed"), Some(&TestValue::Int(2)));
    assert!(p.get_property("b").is_none());
    assert!(!p.rename_property(9, "x".to_string()));
    assert_eq!(p.custom_properties[0].key, "a");
}

#[test]
fn new_properties_get_fresh_keys() {
    let mut p: CustomProperties<TestValue> = CustomProperties::new();
    assert_eq!(p.new_property_key(), "new_property");
    p.add_new_property(TestValue::Text(String::new()));
    assert_eq!(p.custom_properties[0].key, "new_property");
    p.add_new_property(TestValue::Int(0));
    p.add_new_property(TestValue::Int(0));
    let keys: Vec<String> = p.custom_properties.iter().map(|q| q.key.clone()).collect();
    assert_eq!(
        keys,
        vec!["new_property".to_string(), "new_property_1".to_string(), "new_property_2".to_string()]
    );
    p.rename_property(1, "renamed".to_string());
    assert_eq!(p.new_property_key(), "new_property_1");
    assert_eq!(p.next_id, 3);
}
