//! Whole-document generation: schema reading, both modes, determinism,
//! cross-references.

use jgd_rs::{default_locale, json_to_string, schema_from_json, Jgd, JsonValue};

/// Reads JSON text into the library's value model; decimals keep six places.
fn parse_json(text: &str) -> JsonValue {
    let v: serde_json::Value = serde_json::from_str(text).expect("test schema must be valid JSON");
    convert(&v)
}

fn convert(v: &serde_json::Value) -> JsonValue {
    match v {
        serde_json::Value::Null => JsonValue::Null,
        serde_json::Value::Bool(b) => JsonValue::Bool(*b),
        serde_json::Value::Number(n) => {
            if let Some(i) = n.as_i64() {
                JsonValue::Int(i)
            } else {
                let f = n.as_f64().expect("test numbers fit f64");
                JsonValue::Dec((f * 1_000_000.0).round() as i64)
            }
        }
        serde_json::Value::String(s) => JsonValue::Str(s.clone()),
        serde_json::Value::Array(items) => JsonValue::Arr(items.iter().map(convert).collect()),
        serde_json::Value::Object(members) => {
            JsonValue::Obj(members.iter().map(|(k, w)| (k.clone(), convert(w))).collect())
        }
    }
}

fn schema(text: &str) -> Jgd {
    schema_from_json(&parse_json(text)).expect("test schema must be well formed")
}

#[test]
fn test_default_locale_function() {
    assert_eq!(default_locale(), "EN");
}

#[test]
fn test_jgd_from_str_root_mode() {
    let jgd = schema(
        r#"{
            "$format": "jgd/v1",
            "version": "1.0.0",
            "seed": 42,
            "defaultLocale": "EN",
            "root": {
                "fields": {
                    "name": "John Doe",
                    "age": 30
                }
            }
        }"#,
    );

    assert_eq!(jgd.format, "jgd/v1");
    assert_eq!(jgd.version, "1.0.0");
    assert_eq!(jgd.seed, Some(42));
    assert_eq!(jgd.default_locale, "EN");
    assert!(jgd.root.is_some());
    assert!(jgd.entities.is_none());
}

#[test]
fn test_jgd_from_str_entities_mode() {
    let jgd = schema(
        r#"{
            "$format": "jgd/v1",
            "version": "2.0.0",
            "entities": {
                "users": {"fields": {"name": "Alice"}},
                "posts": {"fields": {"title": "Test Post"}}
            }
        }"#,
    );

    assert_eq!(jgd.format, "jgd/v1");
    assert_eq!(jgd.version, "2.0.0");
    assert_eq!(jgd.seed, None);
    assert_eq!(jgd.default_locale, "EN");
    assert!(jgd.root.is_none());
    let entities = jgd.entities.unwrap();
    assert_eq!(entities[0].0, "users");
    assert_eq!(entities[1].0, "posts");
}

#[test]
fn test_jgd_default_values() {
    let jgd = schema(
        r#"{
            "$format": "jgd/v1",
            "version": "1.0",
            "root": {"fields": {"test": "value"}}
        }"#,
    );

    assert_eq!(jgd.seed, None);
    assert_eq!(jgd.default_locale, "EN");
    assert!(jgd.entities.is_none());
}

#[test]
fn test_generate_root_mode() {
    let jgd = schema(
        r#"{
            "$format": "jgd/v1",
            "version": "1.0.0",
            "seed": 42,
            "root": {
                "fields": {
                    "name": "John Doe",
                    "age": 30,
                    "active": true
                }
            }
        }"#,
    );

    let result = jgd.generate().unwrap();
    assert_eq!(
        json_to_string(&result),
        "{\"name\":\"John Doe\",\"age\":30,\"active\":true}"
    );
}

#[test]
fn test_generate_entities_mode() {
    let jgd = schema(
        r#"{
            "$format": "jgd/v1",
            "version": "1.0.0",
            "seed": 42,
            "entities": {
                "users": {"fields": {"name": "Alice"}},
                "products": {"fields": {"title": "Product A"}}
            }
        }"#,
    );

    let result = jgd.generate().unwrap();
    assert_eq!(
        json_to_string(&result),
        "{\"users\":{\"name\":\"Alice\"},\"products\":{\"title\":\"Product A\"}}"
    );
}

#[test]
fn test_generate_empty_schema() {
    let jgd = schema(r#"{"$format": "jgd/v1", "version": "1.0"}"#);
    let result = jgd.generate().unwrap();
    assert!(matches!(result, JsonValue::Null));
}

#[test]
fn test_generate_deterministic_with_seed() {
    let text = r#"{
        "$format": "jgd/v1",
        "version": "1.0.0",
        "seed": 42,
        "root": {
            "fields": {
                "random_number": {"number": {"min": 1, "max": 100, "integer": true}},
                "name": "${name.firstName}",
                "id": "${uuid.v4}",
                "tag": "${ulid}",
                "when": "${chrono.dateTime}"
            }
        }
    }"#;

    let result1 = schema(text).generate().unwrap();
    let result2 = schema(text).generate().unwrap();

    assert_eq!(json_to_string(&result1), json_to_string(&result2));
}

#[test]
fn test_generate_different_seeds_different_results() {
    let template = |seed: u64| {
        format!(
            r#"{{
                "$format": "jgd/v1",
                "version": "1.0.0",
                "seed": {},
                "root": {{
                    "fields": {{
                        "random_number": {{"number": {{"min": 1, "max": 1000, "integer": true}}}}
                    }}
                }}
            }}"#,
            seed
        )
    };

    let result1 = schema(&template(42)).generate().unwrap();
    let result2 = schema(&template(24)).generate().unwrap();

    assert_ne!(json_to_string(&result1), json_to_string(&result2));
}

#[test]
fn test_fixed_single_value_number_for_any_seed() {
    for seed in [1u64, 7, 42, 1000, 123456] {
        let text = format!(
            r#"{{
                "$format": "jgd/v1",
                "version": "1.0",
                "seed": {},
                "root": {{
                    "fields": {{
                        "age": {{"number": {{"min": 1, "max": 1, "integer": true}}}}
                    }}
                }}
            }}"#,
            seed
        );
        let result = schema(&text).generate().unwrap();
        assert_eq!(json_to_string(&result), "{\"age\":1}");
    }
}

#[test]
fn test_optional_zero_probability_for_any_seed() {
    for seed in [1u64, 7, 42, 1000, 123456] {
        let text = format!(
            r#"{{
                "$format": "jgd/v1",
                "version": "1.0",
                "seed": {},
                "root": {{
                    "fields": {{
                        "maybe": {{"optional": {{"of": "x", "prob": 0.0}}}}
                    }}
                }}
            }}"#,
            seed
        );
        let result = schema(&text).generate().unwrap();
        assert_eq!(json_to_string(&result), "{\"maybe\":null}");
    }
}

#[test]
fn test_entities_with_cross_references() {
    let jgd = schema(
        r#"{
            "$format": "jgd/v1",
            "version": "1.0.0",
            "seed": 42,
            "entities": {
                "users": {"fields": {"id": 1, "name": "Alice"}},
                "posts": {
                    "fields": {
                        "author_id": {"ref": "users.id"},
                        "title": "My Post"
                    }
                }
            }
        }"#,
    );

    let result = jgd.generate().unwrap();
    assert_eq!(
        json_to_string(&result),
        "{\"users\":{\"id\":1,\"name\":\"Alice\"},\"posts\":{\"author_id\":1,\"title\":\"My Post\"}}"
    );
}

#[test]
fn test_cross_reference_into_collection_always_finds_stored_value() {
    let jgd = schema(
        r#"{
            "$format": "jgd/v1",
            "version": "1.0",
            "seed": 9,
            "entities": {
                "users": {"count": 2, "fields": {"id": 1}},
                "posts": {"fields": {"uid": {"ref": "users.id"}}}
            }
        }"#,
    );

    let result = jgd.generate().unwrap();
    match result {
        JsonValue::Obj(members) => {
            let posts = &members[1].1;
            match posts {
                JsonValue::Obj(post_members) => {
                    assert_eq!(post_members[0].0, "uid");
                    assert!(matches!(post_members[0].1, JsonValue::Int(1)));
                }
                _ => panic!("Expected a posts object"),
            }
        }
        _ => panic!("Expected an entities object"),
    }
}

#[test]
fn test_complex_root_mode_with_count() {
    let jgd = schema(
        r#"{
            "$format": "jgd/v1",
            "version": "1.0.0",
            "seed": 42,
            "root": {
                "count": 2,
                "fields": {
                    "id": {"number": {"min": 1, "max": 10, "integer": true}},
                    "name": "Test Item"
                }
            }
        }"#,
    );

    let result = jgd.generate().unwrap();
    match result {
        JsonValue::Arr(items) => {
            assert_eq!(items.len(), 2);
            for item in &items {
                match item {
                    JsonValue::Obj(members) => {
                        assert_eq!(members[0].0, "id");
                        assert_eq!(members[1].0, "name");
                        assert_eq!(json_to_string(&members[1].1), "\"Test Item\"");
                    }
                    _ => panic!("Expected an object"),
                }
            }
        }
        _ => panic!("Expected an array"),
    }
}

#[test]
fn test_custom_locale() {
    let jgd = schema(
        r#"{
            "$format": "jgd/v1",
            "version": "1.0.0",
            "defaultLocale": "DE",
            "root": {"fields": {"message": "Hallo Welt"}}
        }"#,
    );

    assert_eq!(jgd.default_locale, "DE");
    let result = jgd.generate().unwrap();
    assert!(matches!(result, JsonValue::Obj(_)));
}

#[test]
fn test_minimal_valid_schema() {
    let jgd = schema(
        r#"{
            "$format": "jgd/v1",
            "version": "",
            "root": {"fields": {}}
        }"#,
    );

    let result = jgd.generate().unwrap();
    assert_eq!(json_to_string(&result), "{}");
}

#[test]
fn test_custom_key() {
    let jgd = schema(
        r#"{
            "$format": "jgd/v1",
            "version": "1.0",
            "seed": 5,
            "root": {"fields": {"value": "${custom}"}}
        }"#,
    );

    let mut config = jgd.create_config();
    config.add_custom_key("custom".to_string(), JsonValue::Str("worked".to_string()));
    let result = jgd.generate_with_config(&mut config).unwrap();
    assert_eq!(json_to_string(&result), "{\"value\":\"worked\"}");
}

#[test]
fn test_template_partial_match_preserves_surrounding_text() {
    let jgd = schema(
        r#"{
            "$format": "jgd/v1",
            "version": "1.0",
            "seed": 11,
            "root": {"fields": {"greeting": "Hello ${name.firstName}!"}}
        }"#,
    );

    let result = jgd.generate().unwrap();
    match result {
        JsonValue::Obj(members) => match &members[0].1 {
            JsonValue::Str(s) => {
                assert!(s.starts_with("Hello "));
                assert!(s.ends_with("!"));
                assert!(!s.contains("${"));
            }
            _ => panic!("Expected a string"),
        },
        _ => panic!("Expected an object"),
    }
}

#[test]
fn test_template_unknown_key_is_an_error() {
    let jgd = schema(
        r#"{
            "$format": "jgd/v1",
            "version": "1.0",
            "seed": 11,
            "root": {"fields": {"bad": "Hello ${invalid.key}!"}}
        }"#,
    );

    match jgd.generate() {
        Err(error) => assert_eq!(error.message, "Error to process the pattern invalid.key"),
        Ok(_) => panic!("Expected an error for an unknown key"),
    }
}

#[test]
fn test_schema_missing_format_is_refused() {
    let value = parse_json(r#"{"version": "1.0", "root": {"fields": {}}}"#);
    assert!(schema_from_json(&value).is_err());
}

#[test]
fn test_error_text_names_entity_and_field() {
    let jgd = schema(
        r#"{
            "$format": "jgd/v1",
            "version": "1.0",
            "entities": {
                "posts": {"fields": {"uid": {"ref": "users.id"}}}
            }
        }"#,
    );

    match jgd.generate() {
        Err(error) => {
            let text = error.to_text();
            assert!(text.contains("The path users.id is not found"));
            assert!(text.contains("posts"));
        }
        Ok(_) => panic!("Expected an error for a forward reference"),
    }
}
