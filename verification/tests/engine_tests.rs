//! The generation engine: fields, entities, numbers, optionals, references.

use jgd_rs::{
    fingerprint, json_to_string, ArraySpec, Count, Entity, Field, GeneratorConfig, JsonValue,
    LocalConfig, NumberSpec, OptionalSpec,
};

fn create_test_config(seed: Option<u64>) -> GeneratorConfig {
    GeneratorConfig::new("EN", seed)
}

fn dec(value: f64) -> i64 {
    (value * 1_000_000.0).round() as i64
}

#[test]
fn test_field_str_without_placeholders() {
    let mut config = create_test_config(Some(42));
    let mut local = LocalConfig::new(None);
    let field = Field::Str("Hello World".to_string());

    let result = field.generate(&mut config, &mut local).unwrap();
    assert_eq!(json_to_string(&result), "\"Hello World\"");
}

#[test]
fn test_field_bool_true() {
    let mut config = create_test_config(Some(42));
    let mut local = LocalConfig::new(None);

    let result = Field::Bool(true).generate(&mut config, &mut local).unwrap();
    assert!(matches!(result, JsonValue::Bool(true)));
}

#[test]
fn test_field_bool_false() {
    let mut config = create_test_config(Some(42));
    let mut local = LocalConfig::new(None);

    let result = Field::Bool(false).generate(&mut config, &mut local).unwrap();
    assert!(matches!(result, JsonValue::Bool(false)));
}

#[test]
fn test_field_i64() {
    let mut config = create_test_config(Some(42));
    let mut local = LocalConfig::new(None);

    let result = Field::I64(12345).generate(&mut config, &mut local).unwrap();
    assert!(matches!(result, JsonValue::Int(12345)));
}

#[test]
fn test_field_dec() {
    let mut config = create_test_config(Some(42));
    let mut local = LocalConfig::new(None);

    let result = Field::Dec(dec(123.45)).generate(&mut config, &mut local).unwrap();
    assert_eq!(json_to_string(&result), "123.45");
}

#[test]
fn test_field_null() {
    let mut config = create_test_config(Some(42));
    let mut local = LocalConfig::new(None);

    let result = Field::Null.generate(&mut config, &mut local).unwrap();
    assert!(matches!(result, JsonValue::Null));
}

#[test]
fn test_field_number_integer_in_range() {
    let mut config = create_test_config(Some(42));
    let mut local = LocalConfig::new(None);
    let field = Field::Number { number: NumberSpec::new_integer(dec(1.0), dec(10.0)) };

    for _ in 0..50 {
        let result = field.generate(&mut config, &mut local).unwrap();
        match result {
            JsonValue::Int(value) => assert!((1..=10).contains(&value)),
            _ => panic!("Expected a whole number"),
        }
    }
}

#[test]
fn test_field_number_truncates_bounds() {
    let mut config = create_test_config(Some(42));
    let mut local = LocalConfig::new(None);
    let field = Field::Number { number: NumberSpec::new_integer(dec(3.7), dec(3.9)) };

    let result = field.generate(&mut config, &mut local).unwrap();
    assert!(matches!(result, JsonValue::Int(3)));
}

#[test]
fn test_field_number_decimal_in_range() {
    let mut config = create_test_config(Some(42));
    let mut local = LocalConfig::new(None);
    let field = Field::Number { number: NumberSpec::new_float(dec(0.0), dec(1.0)) };

    for _ in 0..50 {
        let result = field.generate(&mut config, &mut local).unwrap();
        match result {
            JsonValue::Dec(m) => assert!((0..=1_000_000).contains(&m)),
            _ => panic!("Expected a decimal number"),
        }
    }
}

#[test]
fn test_number_empty_range_is_error() {
    let mut config = create_test_config(Some(42));
    let spec = NumberSpec::new_integer(dec(10.0), dec(1.0));
    assert!(spec.generate(&mut config).is_err());
}

#[test]
fn test_number_is_valid_range() {
    assert!(NumberSpec::new_float(dec(0.0), dec(10.0)).is_valid_range());
    assert!(!NumberSpec::new_float(dec(10.0), dec(0.0)).is_valid_range());
    assert!(NumberSpec::new_integer(dec(5.0), dec(5.0)).is_valid_range());
}

#[test]
fn test_number_integer_count() {
    assert_eq!(NumberSpec::new_integer(dec(1.0), dec(5.0)).integer_count(), 5);
    assert_eq!(NumberSpec::new_integer(dec(10.0), dec(10.0)).integer_count(), 1);
    assert_eq!(NumberSpec::new_integer(dec(10.0), dec(1.0)).integer_count(), 0);
}

#[test]
fn test_field_array() {
    let mut config = create_test_config(Some(42));
    let mut local = LocalConfig::new(None);
    let array_spec = ArraySpec {
        of: Box::new(Field::Str("test".to_string())),
        count: Some(Count::Fixed(3)),
    };
    let field = Field::Array { array: array_spec };

    let result = field.generate(&mut config, &mut local).unwrap();
    match result {
        JsonValue::Arr(items) => {
            assert_eq!(items.len(), 3);
            for item in &items {
                assert_eq!(json_to_string(item), "\"test\"");
            }
        }
        _ => panic!("Expected an array"),
    }
}

#[test]
fn test_field_array_default_count_is_one() {
    let mut config = create_test_config(Some(42));
    let mut local = LocalConfig::new(None);
    let field = Field::Array {
        array: ArraySpec { of: Box::new(Field::I64(7)), count: None },
    };

    let result = field.generate(&mut config, &mut local).unwrap();
    match result {
        JsonValue::Arr(items) => assert_eq!(items.len(), 1),
        _ => panic!("Expected an array"),
    }
}

#[test]
fn test_field_array_range_count() {
    let mut config = create_test_config(Some(42));
    let mut local = LocalConfig::new(None);
    let field = Field::Array {
        array: ArraySpec { of: Box::new(Field::I64(1)), count: Some(Count::Range(2, 6)) },
    };

    for _ in 0..20 {
        let result = field.generate(&mut config, &mut local).unwrap();
        match result {
            JsonValue::Arr(items) => assert!((2..=6).contains(&items.len())),
            _ => panic!("Expected an array"),
        }
    }
}

#[test]
fn test_optional_never_with_zero_probability() {
    let mut local = LocalConfig::new(None);
    for seed in 0..20u64 {
        let mut config = create_test_config(Some(seed));
        let field = Field::Optional {
            optional: OptionalSpec { of: Box::new(Field::Str("x".to_string())), prob: 0 },
        };
        let result = field.generate(&mut config, &mut local).unwrap();
        assert!(matches!(result, JsonValue::Null), "prob 0 must always yield null");
    }
}

#[test]
fn test_optional_always_with_full_probability() {
    let mut local = LocalConfig::new(None);
    for seed in 0..20u64 {
        let mut config = create_test_config(Some(seed));
        let field = Field::Optional {
            optional: OptionalSpec { of: Box::new(Field::Str("x".to_string())), prob: 1_000_000 },
        };
        let result = field.generate(&mut config, &mut local).unwrap();
        assert!(!matches!(result, JsonValue::Null), "prob 1 must never yield null");
    }
}

#[test]
fn test_optional_intermediate_probability_converges() {
    let mut config = create_test_config(Some(42));
    let mut local = LocalConfig::new(None);
    let field = Field::Optional {
        optional: OptionalSpec { of: Box::new(Field::I64(1)), prob: 500_000 },
    };

    let mut present = 0;
    for _ in 0..400 {
        let result = field.generate(&mut config, &mut local).unwrap();
        if !matches!(result, JsonValue::Null) {
            present += 1;
        }
    }
    assert!((120..=280).contains(&present), "about half should be present, got {}", present);
}

#[test]
fn test_field_ref_existing_path() {
    let mut config = create_test_config(Some(42));
    let mut local = LocalConfig::new(None);

    let user = JsonValue::Obj(vec![
        ("id".to_string(), JsonValue::Int(12345)),
        ("name".to_string(), JsonValue::Str("John Doe".to_string())),
    ]);
    config.store_value("users".to_string(), user);

    let field = Field::Ref { ref_path: "users.name".to_string() };
    let result = field.generate(&mut config, &mut local).unwrap();
    assert_eq!(json_to_string(&result), "\"John Doe\"");
}

#[test]
fn test_field_ref_missing_path() {
    let mut config = create_test_config(Some(42));
    let mut local = LocalConfig::new(None);
    let field = Field::Ref { ref_path: "nonexistent.path".to_string() };

    let result = field.generate(&mut config, &mut local);
    match result {
        Err(error) => assert_eq!(error.message, "The path nonexistent.path is not found"),
        Ok(_) => panic!("Expected an error for a missing path"),
    }
}

#[test]
fn test_field_ref_into_array_picks_an_element() {
    let mut config = create_test_config(Some(42));
    let mut local = LocalConfig::new(None);

    let users = JsonValue::Arr(vec![
        JsonValue::Obj(vec![("id".to_string(), JsonValue::Int(1))]),
        JsonValue::Obj(vec![("id".to_string(), JsonValue::Int(2))]),
        JsonValue::Obj(vec![("id".to_string(), JsonValue::Int(3))]),
    ]);
    config.store_value("users".to_string(), users);

    let field = Field::Ref { ref_path: "users.id".to_string() };
    for _ in 0..20 {
        let result = field.generate(&mut config, &mut local).unwrap();
        match result {
            JsonValue::Int(id) => assert!((1..=3).contains(&id)),
            _ => panic!("Expected a referenced id"),
        }
    }
}

#[test]
fn test_fingerprint_single_field() {
    let obj = JsonValue::Obj(vec![
        ("id".to_string(), JsonValue::Str("12345".to_string())),
        ("name".to_string(), JsonValue::Str("John Doe".to_string())),
    ]);

    let fp = fingerprint(&obj, &vec!["id".to_string()]);
    assert_eq!(fp, "id:12345");
}

#[test]
fn test_fingerprint_multiple_fields() {
    let obj = JsonValue::Obj(vec![
        ("id".to_string(), JsonValue::Str("12345".to_string())),
        ("name".to_string(), JsonValue::Str("John Doe".to_string())),
        ("email".to_string(), JsonValue::Str("john@example.com".to_string())),
    ]);

    let fp = fingerprint(&obj, &vec!["id".to_string(), "email".to_string()]);
    assert_eq!(fp, "id:12345|email:john@example.com");
}

#[test]
fn test_fingerprint_missing_field() {
    let obj = JsonValue::Obj(vec![
        ("id".to_string(), JsonValue::Str("12345".to_string())),
        ("name".to_string(), JsonValue::Str("John Doe".to_string())),
    ]);

    let fp = fingerprint(&obj, &vec!["id".to_string(), "missing".to_string()]);
    assert_eq!(fp, "id:12345|missing:missing");
}

#[test]
fn test_fingerprint_different_types() {
    let obj = JsonValue::Obj(vec![
        ("id".to_string(), JsonValue::Int(12345)),
        ("active".to_string(), JsonValue::Bool(true)),
        ("score".to_string(), JsonValue::Dec(dec(98.5))),
        ("data".to_string(), JsonValue::Null),
        (
            "tags".to_string(),
            JsonValue::Arr(vec![
                JsonValue::Str("rust".to_string()),
                JsonValue::Str("json".to_string()),
            ]),
        ),
    ]);

    let fp = fingerprint(
        &obj,
        &vec![
            "id".to_string(),
            "active".to_string(),
            "score".to_string(),
            "data".to_string(),
            "tags".to_string(),
        ],
    );

    assert!(fp.contains("id:12345"));
    assert!(fp.contains("active:true"));
    assert!(fp.contains("score:98.5"));
    assert!(fp.contains("data:null"));
    assert!(fp.contains("tags:"));
}

#[test]
fn test_entity_single_generation() {
    let mut config = create_test_config(Some(42));
    let entity = Entity {
        count: None,
        seed: None,
        unique_by: vec![],
        fields: vec![
            ("name".to_string(), Field::Str("John".to_string())),
            ("age".to_string(), Field::I64(30)),
        ],
    };

    let result = entity.generate(&mut config, None).unwrap();
    assert_eq!(json_to_string(&result), "{\"name\":\"John\",\"age\":30}");
}

#[test]
fn test_entity_array_generation() {
    let mut config = create_test_config(Some(42));
    let entity = Entity {
        count: Some(Count::Fixed(3)),
        seed: None,
        unique_by: vec![],
        fields: vec![(
            "id".to_string(),
            Field::Number { number: NumberSpec::new_integer(1_000_000, 1_000_000_000_000) },
        )],
    };

    let result = entity.generate(&mut config, None).unwrap();
    match result {
        JsonValue::Arr(items) => {
            assert_eq!(items.len(), 3);
            for item in &items {
                match item {
                    JsonValue::Obj(members) => {
                        assert_eq!(members.len(), 1);
                        assert_eq!(members[0].0, "id");
                        assert!(matches!(members[0].1, JsonValue::Int(_)));
                    }
                    _ => panic!("Expected an object"),
                }
            }
        }
        _ => panic!("Expected an array for an entity with a count"),
    }
}

#[test]
fn test_entity_uniqueness_constraint() {
    let mut config = create_test_config(Some(42));
    let entity = Entity {
        count: Some(Count::Fixed(3)),
        seed: None,
        unique_by: vec!["id".to_string()],
        fields: vec![
            (
                "id".to_string(),
                Field::Number { number: NumberSpec::new_integer(dec(1.0), dec(3.0)) },
            ),
            ("name".to_string(), Field::Str("Test".to_string())),
        ],
    };

    let result = entity.generate(&mut config, None).unwrap();
    match result {
        JsonValue::Arr(items) => {
            assert!(items.len() <= 3);
            let mut seen_ids = std::collections::HashSet::new();
            for item in &items {
                if let JsonValue::Obj(members) = item {
                    if let JsonValue::Int(id) = members[0].1 {
                        assert!(!seen_ids.contains(&id), "Duplicate id found: {}", id);
                        seen_ids.insert(id);
                    }
                }
            }
        }
        _ => panic!("Expected an array"),
    }
}

#[test]
fn test_entity_composite_uniqueness() {
    let mut config = create_test_config(Some(42));
    let entity = Entity {
        count: Some(Count::Fixed(5)),
        seed: None,
        unique_by: vec!["category".to_string(), "subcategory".to_string()],
        fields: vec![
            (
                "category".to_string(),
                Field::Number { number: NumberSpec::new_integer(dec(1.0), dec(2.0)) },
            ),
            (
                "subcategory".to_string(),
                Field::Number { number: NumberSpec::new_integer(dec(1.0), dec(2.0)) },
            ),
        ],
    };

    let result = entity.generate(&mut config, None).unwrap();
    match result {
        JsonValue::Arr(items) => {
            assert!(items.len() <= 4);
            let mut seen = std::collections::HashSet::new();
            for item in &items {
                if let JsonValue::Obj(members) = item {
                    let cat = match members[0].1 {
                        JsonValue::Int(c) => c,
                        _ => panic!("Expected a number"),
                    };
                    let subcat = match members[1].1 {
                        JsonValue::Int(s) => s,
                        _ => panic!("Expected a number"),
                    };
                    assert!(!seen.contains(&(cat, subcat)), "Duplicate pair {:?}", (cat, subcat));
                    seen.insert((cat, subcat));
                }
            }
        }
        _ => panic!("Expected an array"),
    }
}

#[test]
fn test_entity_bare_object_versus_count_one() {
    let mut config = create_test_config(Some(42));
    let fields = vec![("name".to_string(), Field::Str("A".to_string()))];

    let bare = Entity { count: None, seed: None, unique_by: vec![], fields: fields.clone_fields() };
    let counted =
        Entity { count: Some(Count::Fixed(1)), seed: None, unique_by: vec![], fields };

    let bare_out = bare.generate(&mut config, None).unwrap();
    let counted_out = counted.generate(&mut config, None).unwrap();

    assert!(matches!(bare_out, JsonValue::Obj(_)), "absent count must give a bare object");
    assert!(matches!(counted_out, JsonValue::Arr(_)), "count one must give a one-element array");
}

trait CloneFields {
    fn clone_fields(&self) -> Vec<(String, Field)>;
}

impl CloneFields for Vec<(String, Field)> {
    fn clone_fields(&self) -> Vec<(String, Field)> {
        self.iter()
            .map(|(k, f)| {
                let copy = match f {
                    Field::Str(s) => Field::Str(s.clone()),
                    Field::I64(i) => Field::I64(*i),
                    Field::Bool(b) => Field::Bool(*b),
                    _ => panic!("only scalar fields are copied here"),
                };
                (k.clone(), copy)
            })
            .collect()
    }
}

#[test]
fn test_entity_seeded_candidates_are_reproducible() {
    let make = || Entity {
        count: Some(Count::Fixed(2)),
        seed: Some(99),
        unique_by: vec![],
        fields: vec![(
            "id".to_string(),
            Field::Number { number: NumberSpec::new_integer(dec(1.0), dec(1000.0)) },
        )],
    };

    let mut config1 = create_test_config(Some(1));
    let mut config2 = create_test_config(Some(2));
    let out1 = make().generate(&mut config1, None).unwrap();
    let out2 = make().generate(&mut config2, None).unwrap();
    assert_eq!(json_to_string(&out1), json_to_string(&out2));
}

#[test]
fn test_uniqueness_pressure_truncates_quietly() {
    let mut config = create_test_config(Some(7));
    let entity = Entity {
        count: Some(Count::Fixed(10)),
        seed: None,
        unique_by: vec!["id".to_string()],
        fields: vec![(
            "id".to_string(),
            Field::Number { number: NumberSpec::new_integer(dec(1.0), dec(3.0)) },
        )],
    };

    let result = entity.generate(&mut config, None).unwrap();
    match result {
        JsonValue::Arr(items) => {
            assert!(items.len() <= 3, "only three distinct ids exist");
            assert!(!items.is_empty());
        }
        _ => panic!("Expected an array"),
    }
}

#[test]
fn test_literal_schema_never_fails() {
    for seed in 0..30u64 {
        let mut config = create_test_config(Some(seed));
        let entity = Entity {
            count: Some(Count::Range(0, 4)),
            seed: None,
            unique_by: vec![],
            fields: vec![
                ("b".to_string(), Field::Bool(false)),
                ("n".to_string(), Field::Null),
                ("i".to_string(), Field::I64(-3)),
                ("d".to_string(), Field::Dec(dec(2.5))),
                ("s".to_string(), Field::Str("plain".to_string())),
                (
                    "m".to_string(),
                    Field::Number { number: NumberSpec::new_float(dec(0.5), dec(0.75)) },
                ),
            ],
        };
        assert!(entity.generate(&mut config, None).is_ok());
    }
}
