//! Cardinality resolution for counts and lengths.

use jgd_rs::{Count, GetCount, GetLength, GeneratorConfig, Len};

fn create_test_config(seed: Option<u64>) -> GeneratorConfig {
    GeneratorConfig::new("EN", seed)
}

#[test]
fn it_works() {}

#[test]
fn test_count_fixed() {
    let mut config = create_test_config(None);
    let count = Count::Fixed(5);

    assert_eq!(count.count(&mut config), 5);
    assert_eq!(count.count(&mut config), 5);
    assert_eq!(count.count(&mut config), 5);
}

#[test]
fn test_count_range_within_bounds() {
    let mut config = create_test_config(None);
    let count = Count::Range(1, 10);

    for _ in 0..20 {
        let result = count.count(&mut config);
        assert!((1..=10).contains(&result), "Value {} not in range [1, 10]", result);
    }
}

#[test]
fn test_count_option_none_defaults_to_one() {
    let mut config = create_test_config(None);
    let none_count: Option<Count> = None;
    assert_eq!(none_count.count(&mut config), 1);
}

#[test]
fn test_count_option_some() {
    let mut config = create_test_config(None);
    let some_count = Some(Count::Fixed(3));
    assert_eq!(some_count.count(&mut config), 3);
}

#[test]
fn test_count_deterministic_with_seed() {
    let count = Count::Range(1, 100);
    let mut config1 = create_test_config(Some(21));
    let mut config2 = create_test_config(Some(21));

    assert_eq!(count.count(&mut config1), count.count(&mut config2));
}

#[test]
fn test_count_debug() {
    let fixed = Count::Fixed(10);
    let range = Count::Range(5, 15);

    let _ = format!("{:?}", fixed);
    let _ = format!("{:?}", range);
}

#[test]
fn test_len_fixed() {
    let mut config = create_test_config(None);
    let len = Len::Fixed(5);

    assert_eq!(len.len(&mut config), 5);
    assert_eq!(len.len(&mut config), 5);
    assert_eq!(len.len(&mut config), 5);
}

#[test]
fn test_len_fixed_zero() {
    let mut config = create_test_config(None);
    let len = Len::Fixed(0);

    assert_eq!(len.len(&mut config), 0);
}

#[test]
fn test_len_range_within_bounds() {
    let mut config = create_test_config(None);
    let len = Len::Range(1, 10);

    for _ in 0..20 {
        let result = len.len(&mut config);
        assert!((1..=10).contains(&result), "Value {} not in range [1, 10]", result);
    }
}

#[test]
fn test_len_range_deterministic_with_seed() {
    let len = Len::Range(1, 100);

    let mut config1 = create_test_config(Some(21));
    let mut config2 = create_test_config(Some(21));

    let result1 = len.len(&mut config1);
    let result2 = len.len(&mut config2);

    assert_eq!(result1, result2, "Same seed should produce same results");
}

#[test]
fn test_option_len_none() {
    let mut config = create_test_config(None);
    let opt_len: Option<Len> = None;

    assert_eq!(opt_len.len(&mut config), 1);
    assert_eq!(opt_len.len(&mut config), 1);
}

#[test]
fn test_len_debug() {
    let fixed = Len::Fixed(10);
    let range = Len::Range(5, 15);

    let _ = format!("{:?}", fixed);
    let _ = format!("{:?}", range);
}

#[test]
fn test_len_range_distribution() {
    let mut config = create_test_config(None);
    let len = Len::Range(1, 3);

    let mut results = std::collections::HashMap::new();

    for _ in 0..300 {
        let result = len.len(&mut config);
        *results.entry(result).or_insert(0) += 1;
    }

    assert!(results.contains_key(&1), "Should generate value 1");
    assert!(results.contains_key(&2), "Should generate value 2");
    assert!(results.contains_key(&3), "Should generate value 3");

    assert!(!results.contains_key(&0), "Should not generate value 0");
    assert!(!results.contains_key(&4), "Should not generate value 4");
}

#[test]
fn test_edge_case_max_u64() {
    let mut config = create_test_config(None);
    let large_value = u64::MAX - 1;
    let len = Len::Fixed(large_value);

    assert_eq!(len.len(&mut config), large_value);
}

#[test]
fn test_count_fixed_zero() {
    let mut config = create_test_config(None);
    assert_eq!(Count::Fixed(0).count(&mut config), 0);
}

#[test]
fn test_count_fixed_large_number() {
    let mut config = create_test_config(None);
    assert_eq!(Count::Fixed(1000).count(&mut config), 1000);
}

#[test]
fn test_count_range_single_value() {
    let mut config = create_test_config(None);
    let count = Count::Range(5, 5);
    assert_eq!(count.count(&mut config), 5);
    assert_eq!(count.count(&mut config), 5);
}

#[test]
fn test_len_range_single_value() {
    let mut config = create_test_config(None);
    let len = Len::Range(5, 5);
    assert_eq!(len.len(&mut config), 5);
    assert_eq!(len.len(&mut config), 5);
}

#[test]
fn test_len_range_zero_to_value() {
    let mut config = create_test_config(None);
    let len = Len::Range(0, 3);
    for _ in 0..20 {
        assert!(len.len(&mut config) <= 3);
    }
}

#[test]
fn test_len_range_large_range() {
    let mut config = create_test_config(None);
    let len = Len::Range(100, 200);
    for _ in 0..10 {
        let result = len.len(&mut config);
        assert!((100..=200).contains(&result), "Value {} not in range [100, 200]", result);
    }
}

#[test]
fn test_option_len_some_fixed() {
    let mut config = create_test_config(None);
    let opt_len = Some(Len::Fixed(7));
    assert_eq!(opt_len.len(&mut config), 7);
}

#[test]
fn test_option_len_some_range() {
    let mut config = create_test_config(None);
    let opt_len = Some(Len::Range(2, 8));
    for _ in 0..10 {
        let result = opt_len.len(&mut config);
        assert!((2..=8).contains(&result), "Value {} not in range [2, 8]", result);
    }
}

#[test]
fn test_multiple_configs_independence() {
    let len = Len::Range(1, 100);

    let mut config1 = create_test_config(Some(123));
    let mut config2 = create_test_config(Some(456));

    let result1 = len.len(&mut config1);
    let result2 = len.len(&mut config2);

    assert!((1..=100).contains(&result1));
    assert!((1..=100).contains(&result2));
}
