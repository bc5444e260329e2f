//! The value model and its canonical text: numbers, escaping, lookups.

use jgd_rs::{dec_to_string, json_to_string, JsonValue, LocalesKeys};

#[test]
fn test_json_text_scalars() {
    assert_eq!(json_to_string(&JsonValue::Null), "null");
    assert_eq!(json_to_string(&JsonValue::Bool(true)), "true");
    assert_eq!(json_to_string(&JsonValue::Bool(false)), "false");
    assert_eq!(json_to_string(&JsonValue::Int(0)), "0");
    assert_eq!(json_to_string(&JsonValue::Int(-42)), "-42");
    assert_eq!(json_to_string(&JsonValue::Int(i64::MAX)), "9223372036854775807");
    assert_eq!(json_to_string(&JsonValue::Int(i64::MIN)), "-9223372036854775808");
}

#[test]
fn test_json_text_strings_escape() {
    let v = JsonValue::Str("a\"b\\c\nd".to_string());
    assert_eq!(json_to_string(&v), "\"a\\\"b\\\\c\\nd\"");
}

#[test]
fn test_json_text_structures() {
    let v = JsonValue::Arr(vec![
        JsonValue::Int(1),
        JsonValue::Str("x".to_string()),
        JsonValue::Null,
    ]);
    assert_eq!(json_to_string(&v), "[1,\"x\",null]");

    let v = JsonValue::Obj(vec![
        ("a".to_string(), JsonValue::Int(1)),
        ("b".to_string(), JsonValue::Arr(vec![])),
        ("c".to_string(), JsonValue::Obj(vec![])),
    ]);
    assert_eq!(json_to_string(&v), "{\"a\":1,\"b\":[],\"c\":{}}");
}

#[test]
fn test_dec_text_trims_trailing_zeros() {
    assert_eq!(dec_to_string(1_500_000), "1.5");
    assert_eq!(dec_to_string(98_500_000), "98.5");
    assert_eq!(dec_to_string(123_450_000), "123.45");
    assert_eq!(dec_to_string(5_000_000), "5.0");
    assert_eq!(dec_to_string(0), "0.0");
    assert_eq!(dec_to_string(-1_500_000), "-1.5");
    assert_eq!(dec_to_string(1), "0.000001");
    assert_eq!(dec_to_string(-1), "-0.000001");
}

#[test]
fn test_member_lookup() {
    let v = JsonValue::Obj(vec![
        ("a".to_string(), JsonValue::Int(1)),
        ("b".to_string(), JsonValue::Int(2)),
        ("a".to_string(), JsonValue::Int(3)),
    ]);
    match v.member("a") {
        Some(JsonValue::Int(1)) => {}
        _ => panic!("The first matching member wins"),
    }
    match v.member("b") {
        Some(JsonValue::Int(2)) => {}
        _ => panic!("Expected member b"),
    }
    assert!(v.member("z").is_none());
    assert!(JsonValue::Int(5).member("a").is_none());
}

#[test]
fn test_deep_clone_is_equal() {
    let v = JsonValue::Obj(vec![
        ("a".to_string(), JsonValue::Arr(vec![JsonValue::Dec(2_500_000)])),
        ("b".to_string(), JsonValue::Str("text".to_string())),
    ]);
    let copy = v.deep_clone();
    assert_eq!(json_to_string(&copy), json_to_string(&v));
}

#[test]
fn test_locale_codes_round_trip() {
    let codes = ["EN", "FR_FR", "IT_IT", "JA_JP", "DE_DE", "PT_BR", "AR_SA", "CY_GB"];
    for code in codes {
        assert_eq!(LocalesKeys::from_code(code).code(), code);
    }
    assert_eq!(LocalesKeys::from_code("NOPE").code(), "EN");
}
