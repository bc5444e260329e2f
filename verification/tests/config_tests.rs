//! The generation context: the store, path resolution, trace state.

use jgd_rs::{GeneratorConfig, JsonValue, LocalConfig, Prng};

fn create_test_config(seed: Option<u64>) -> GeneratorConfig {
    GeneratorConfig::new("EN", seed)
}

#[test]
fn test_new_with_seed() {
    let config = create_test_config(Some(42));
    assert_eq!(config.locale, "EN");
    assert!(config.gen_value.is_empty());
}

#[test]
fn test_new_with_different_locales() {
    let config_en = GeneratorConfig::new("EN", Some(42));
    let config_es = GeneratorConfig::new("ES", Some(42));

    assert_eq!(config_en.locale, "EN");
    assert_eq!(config_es.locale, "ES");
}

#[test]
fn test_get_value_from_path_nested_objects() {
    let mut config = create_test_config(Some(42));

    let user = JsonValue::Obj(vec![
        ("name".to_string(), JsonValue::Str("Alice".to_string())),
        (
            "address".to_string(),
            JsonValue::Obj(vec![
                ("city".to_string(), JsonValue::Str("New York".to_string())),
                ("country".to_string(), JsonValue::Str("USA".to_string())),
            ]),
        ),
    ]);
    config.store_value("user".to_string(), user);

    match config.get_value_from_path("user.address.city") {
        Some(JsonValue::Str(city)) => assert_eq!(city, "New York"),
        _ => panic!("Expected the nested city"),
    }
}

#[test]
fn test_get_value_from_path_missing_entity() {
    let mut config = create_test_config(Some(42));
    assert!(config.get_value_from_path("nobody.here").is_none());
}

#[test]
fn test_get_value_from_path_missing_member() {
    let mut config = create_test_config(Some(42));
    config.store_value(
        "user".to_string(),
        JsonValue::Obj(vec![("name".to_string(), JsonValue::Str("Alice".to_string()))]),
    );
    assert!(config.get_value_from_path("user.age").is_none());
}

#[test]
fn test_get_value_from_path_through_array() {
    let mut config = create_test_config(Some(42));
    let users = JsonValue::Arr(vec![
        JsonValue::Obj(vec![("name".to_string(), JsonValue::Str("Alice".to_string()))]),
        JsonValue::Obj(vec![("name".to_string(), JsonValue::Str("Bob".to_string()))]),
        JsonValue::Obj(vec![("name".to_string(), JsonValue::Str("Charlie".to_string()))]),
    ]);
    config.store_value("users".to_string(), users);

    let mut found = std::collections::HashSet::new();
    for _ in 0..40 {
        match config.get_value_from_path("users.name") {
            Some(JsonValue::Str(name)) => {
                assert!(["Alice", "Bob", "Charlie"].contains(&name.as_str()));
                found.insert(name);
            }
            _ => panic!("Expected a name out of the stored collection"),
        }
    }
    assert!(!found.is_empty());
}

#[test]
fn test_get_value_from_path_scalar_stops_traversal() {
    let mut config = create_test_config(Some(42));
    config.store_value("flag".to_string(), JsonValue::Bool(true));
    assert!(config.get_value_from_path("flag.inner").is_none());

    match config.get_value_from_path("flag") {
        Some(JsonValue::Bool(true)) => {}
        _ => panic!("A whole entity resolves as itself"),
    }
}

#[test]
fn test_custom_values_registry() {
    let mut config = create_test_config(Some(42));
    assert!(config.get_custom_key("custom").is_none());
    config.add_custom_key("custom".to_string(), JsonValue::Str("worked".to_string()));
    match config.get_custom_key("custom") {
        Some(JsonValue::Str(s)) => assert_eq!(s, "worked"),
        _ => panic!("Expected the registered value"),
    }
}

#[test]
fn test_local_config_new() {
    let local = LocalConfig::new(None);
    assert!(local.entity_name.is_none());
    assert!(local.field_name.is_none());
    assert!(local.indices.is_empty());
    assert_eq!(local.count_items, 0);
}

#[test]
fn test_local_config_from_current() {
    let parents = vec![7usize, 8];
    let local = LocalConfig::from_current(
        Some(Prng::seed_from_u64(1)),
        5,
        Some("users"),
        Some("name"),
        Some(0),
        Some(&parents),
    );

    assert_eq!(local.count_items, 5);
    assert_eq!(local.entity_name.as_deref(), Some("users"));
    assert_eq!(local.field_name.as_deref(), Some("name"));
    assert_eq!(local.indices, vec![0, 7, 8]);
}

#[test]
fn test_local_config_from_current_with_config() {
    let parent = LocalConfig::from_current(None, 2, Some("users"), None, Some(3), None);
    let child = LocalConfig::from_current_with_config(None, 4, Some(&parent));

    assert_eq!(child.count_items, 4);
    assert_eq!(child.entity_name.as_deref(), Some("users"));
    assert_eq!(child.indices, vec![0, 3]);
}

#[test]
fn test_local_config_get_index() {
    let parents = vec![9usize];
    let local = LocalConfig::from_current(None, 1, None, None, Some(4), Some(&parents));

    assert_eq!(local.get_index(0), Some(4));
    assert_eq!(local.get_index(1), Some(9));
    assert_eq!(local.get_index(2), None);
}

#[test]
fn test_local_config_set_index() {
    let mut local = LocalConfig::from_current(None, 1, None, None, Some(0), None);
    local.set_index(6);
    assert_eq!(local.indices, vec![6]);

    let mut empty = LocalConfig::new(None);
    empty.set_index(6);
    assert!(empty.indices.is_empty());
}
