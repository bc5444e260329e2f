//! Placeholder scanning and substitution through the public API.

use jgd_rs::{GeneratorConfig, JsonValue, ReplacerCollection};

fn create_test_config() -> GeneratorConfig {
    GeneratorConfig::new("EN", Some(7))
}

#[test]
fn replacer_test_replacer_collection_is_empty() {
    let empty_collection = ReplacerCollection::new("No replacements here".to_string());
    assert!(empty_collection.is_empty());

    let non_empty_collection = ReplacerCollection::new("${name.firstName}".to_string());
    assert!(!non_empty_collection.is_empty());
}

#[test]
fn replacer_test_replacer_collection_get_full_replacer() {
    let collection = ReplacerCollection::new("${name.firstName}".to_string());

    let full_replacer = collection.get_full_replacer();
    assert_eq!(full_replacer.key, "name.firstName");
    assert_eq!(full_replacer.pattern, "name.firstName");
}

#[test]
fn test_replacer_collection_new_empty() {
    let collection = ReplacerCollection::new("Hello world!".to_string());

    assert!(collection.is_empty());
    assert!(!collection.full_replace);
    assert_eq!(collection.value, "Hello world!");
    assert_eq!(collection.collection.len(), 0);
}

#[test]
fn test_replacer_collection_new_single_replacement() {
    let collection = ReplacerCollection::new("${name.firstName}".to_string());

    assert!(!collection.is_empty());
    assert!(collection.full_replace);
    assert_eq!(collection.value, "${name.firstName}");
    assert_eq!(collection.collection.len(), 1);

    let replacer = &collection.collection[0];
    assert_eq!(replacer.key, "name.firstName");
    assert_eq!(replacer.pattern, "name.firstName");
}

#[test]
fn test_replacer_collection_new_multiple_replacements() {
    let collection =
        ReplacerCollection::new("Hello ${name.firstName} from ${address.cityName}!".to_string());

    assert!(!collection.is_empty());
    assert!(!collection.full_replace);
    assert_eq!(collection.collection.len(), 2);

    let replacer1 = &collection.collection[0];
    assert_eq!(replacer1.key, "name.firstName");
    assert_eq!(replacer1.start, 6);
    assert_eq!(replacer1.end, 23);

    let replacer2 = &collection.collection[1];
    assert_eq!(replacer2.key, "address.cityName");
    assert_eq!(replacer2.start, 29);
    assert_eq!(replacer2.end, 48);
}

#[test]
fn test_replacer_collection_new_partial_replacement() {
    let collection = ReplacerCollection::new("Prefix ${name.firstName} suffix".to_string());

    assert!(!collection.is_empty());
    assert!(!collection.full_replace);
    assert_eq!(collection.collection.len(), 1);

    let replacer = &collection.collection[0];
    assert_eq!(replacer.key, "name.firstName");
    assert_eq!(replacer.length, 17);
    assert!(replacer.length < collection.value.len());
}

#[test]
fn test_replacer_with_arguments() {
    let collection = ReplacerCollection::new("Number: ${lorem.words(3..5)}".to_string());

    assert_eq!(collection.collection.len(), 1);
    let replacer = &collection.collection[0];
    assert_eq!(replacer.tag, "${lorem.words(3..5)}");
    assert_eq!(replacer.key, "lorem.words");
    assert_eq!(replacer.pattern, "lorem.words(3..5)");
    assert_eq!(replacer.start, 8);
    assert_eq!(replacer.end, 28);
    assert_eq!(replacer.length, 20);
}

#[test]
fn test_replacer_collection_replace_empty() {
    let mut config = create_test_config();
    let collection = ReplacerCollection::new("No replacements here".to_string());

    let result = collection.replace(&mut config, None);
    assert!(result.is_ok());

    match result.unwrap() {
        JsonValue::Str(s) => {
            assert_eq!(s, "No replacements here");
        }
        _ => panic!("Expected a string value"),
    }
}

#[test]
fn test_replacer_collection_replace_full_with_valid_key() {
    let mut config = create_test_config();
    let collection = ReplacerCollection::new("${name.firstName}".to_string());

    let result = collection.replace(&mut config, None);
    assert!(result.is_ok());

    match result.unwrap() {
        JsonValue::Str(s) => {
            assert_ne!(s, "${name.firstName}");
            assert!(!s.is_empty());
        }
        _ => panic!("Expected a string value"),
    }
}

#[test]
fn test_replacer_collection_replace_full_with_invalid_key() {
    let mut config = create_test_config();
    let collection = ReplacerCollection::new("${invalid.key}".to_string());

    let result = collection.replace(&mut config, None);
    assert!(result.is_err());

    match result {
        Err(error) => {
            assert_eq!(error.message, "Error to process the pattern invalid.key");
        }
        _ => panic!("Expected an error"),
    }
}

#[test]
fn test_replacer_collection_replace_partial_with_valid_keys() {
    let mut config = create_test_config();
    let collection =
        ReplacerCollection::new("Hello ${name.firstName} from ${address.cityName}!".to_string());

    let result = collection.replace(&mut config, None);
    assert!(result.is_ok());

    match result.unwrap() {
        JsonValue::Str(s) => {
            assert!(s.starts_with("Hello "));
            assert!(s.ends_with("!"));
            assert!(s.contains(" from "));
            assert!(!s.contains("${name.firstName}"));
            assert!(!s.contains("${address.cityName}"));
        }
        _ => panic!("Expected a string value"),
    }
}

#[test]
fn test_replacer_collection_replace_partial_with_mixed_keys() {
    let mut config = create_test_config();
    let collection =
        ReplacerCollection::new("Hello ${name.firstName} and ${invalid.key}!".to_string());

    let result = collection.replace(&mut config, None);
    assert!(result.is_err());

    match result {
        Err(error) => {
            assert_eq!(error.message, "Error to process the pattern invalid.key");
        }
        _ => panic!("Expected an error"),
    }
}

#[test]
fn test_replacer_collection_replace_preserves_order() {
    let mut config = create_test_config();
    let collection = ReplacerCollection::new("${name.firstName}_${name.lastName}".to_string());

    let result = collection.replace(&mut config, None);
    assert!(result.is_ok());

    match result.unwrap() {
        JsonValue::Str(s) => {
            assert!(s.contains('_'));
            let parts: Vec<&str> = s.split('_').collect();
            assert_eq!(parts.len(), 2);
            assert!(!parts[0].is_empty());
            assert!(!parts[1].is_empty());
            assert!(!parts[0].contains("${name.firstName}"));
            assert!(!parts[1].contains("${name.lastName}"));
        }
        _ => panic!("Expected a string value"),
    }
}

#[test]
fn test_replacer_collection_replace_overlapping_patterns() {
    let mut config = create_test_config();
    let collection = ReplacerCollection::new("${name.firstName}${name.lastName}".to_string());

    let result = collection.replace(&mut config, None);
    assert!(result.is_ok());

    match result.unwrap() {
        JsonValue::Str(s) => {
            assert!(!s.contains("${name.firstName}"));
            assert!(!s.contains("${name.lastName}"));
            assert!(!s.is_empty());
        }
        _ => panic!("Expected a string value"),
    }
}

#[test]
fn test_scanner_pattern_shapes() {
    let cases: Vec<(&str, Vec<&str>)> = vec![
        ("${simple}", vec!["simple"]),
        ("${with.dot}", vec!["with.dot"]),
        ("${with.args(1,2)}", vec!["with.args"]),
        ("${complex.path(1..5)}", vec!["complex.path"]),
        ("Multiple ${first} and ${second}", vec!["first", "second"]),
    ];

    for (input, expected_keys) in cases {
        let collection = ReplacerCollection::new(input.to_string());
        let actual_keys: Vec<String> = collection.collection.iter().map(|r| r.key.clone()).collect();
        assert_eq!(actual_keys.len(), expected_keys.len(), "Mismatch for input: {}", input);
        for (actual, expected) in actual_keys.iter().zip(expected_keys.iter()) {
            assert_eq!(actual, expected, "Key mismatch for input: {}", input);
        }
    }
}

#[test]
fn test_full_match_keeps_native_number_type() {
    let mut config = create_test_config();
    let collection = ReplacerCollection::new("${number.digit}".to_string());

    let result = collection.replace(&mut config, None).unwrap();
    match result {
        JsonValue::Int(d) => assert!((0..=9).contains(&d)),
        _ => panic!("Expected a native number, not a string"),
    }
}

#[test]
fn test_full_match_keeps_native_boolean_type() {
    let mut config = create_test_config();
    let collection = ReplacerCollection::new("${boolean.boolean}".to_string());

    let result = collection.replace(&mut config, None).unwrap();
    assert!(matches!(result, JsonValue::Bool(_)));
}

#[test]
fn test_partial_match_stringifies_numbers() {
    let mut config = create_test_config();
    let collection = ReplacerCollection::new("digit: ${number.digit}".to_string());

    let result = collection.replace(&mut config, None).unwrap();
    match result {
        JsonValue::Str(s) => {
            assert!(s.starts_with("digit: "));
            let tail = &s["digit: ".len()..];
            assert!(tail.parse::<i64>().is_ok());
        }
        _ => panic!("Expected a string value"),
    }
}

#[test]
fn test_custom_value_wins_over_catalog() {
    let mut config = create_test_config();
    config.add_custom_key("custom.key".to_string(), JsonValue::Str("worked".to_string()));
    let collection = ReplacerCollection::new("${custom.key}".to_string());

    let result = collection.replace(&mut config, None).unwrap();
    match result {
        JsonValue::Str(s) => assert_eq!(s, "worked"),
        _ => panic!("Expected the custom value"),
    }
}
