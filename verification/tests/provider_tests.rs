//! The value catalog: key table and generated value shapes.

use jgd_rs::{FakeGenerator, FakeKeys, JsonValue, Prng};

fn create_test_generator() -> FakeGenerator {
    FakeGenerator::new("EN")
}

fn create_test_rng() -> Prng {
    Prng::seed_from_u64(42)
}

fn expect_string(pattern: &str) -> String {
    let generator = create_test_generator();
    let mut rng = create_test_rng();
    match generator.generate_by_key(pattern, &mut rng) {
        Ok(JsonValue::Str(s)) => s,
        Ok(_) => panic!("Expected a string for {}", pattern),
        Err(e) => panic!("Expected a value for {}: {}", pattern, e),
    }
}

#[test]
fn test_fake_keys_contains_known_keys() {
    let keys = FakeKeys::new();
    assert!(keys.contains_key("name.firstName"));
    assert!(keys.contains_key("address.cityName"));
    assert!(keys.contains_key("uuid.v4"));
    assert!(keys.contains_key("ulid"));
    assert!(!keys.contains_key("invalid.key"));
    assert!(!keys.contains_key(""));
}

#[test]
fn test_generate_by_key_address_methods() {
    assert!(!expect_string("address.cityPrefix").is_empty());
    assert!(!expect_string("address.citySuffix").is_empty());
    assert!(!expect_string("address.cityName").is_empty());
    assert!(!expect_string("address.countryName").is_empty());
    assert!(!expect_string("address.buildingNumber").is_empty());
    assert_eq!(expect_string("address.geohash(8)").len(), 8);
    assert_eq!(expect_string("address.geohash").len(), 5);
}

#[test]
fn test_generate_by_key_barcode_methods() {
    assert!(expect_string("barcode.isbn").starts_with("978-"));
    assert!(!expect_string("barcode.isbn10").is_empty());
    assert!(expect_string("barcode.isbn13").starts_with("978-"));
}

#[test]
fn test_generate_by_key_boolean_methods() {
    let generator = create_test_generator();
    let mut rng = create_test_rng();
    assert!(matches!(
        generator.generate_by_key("boolean.boolean", &mut rng),
        Ok(JsonValue::Bool(_))
    ));
    assert!(matches!(
        generator.generate_by_key("boolean.boolean(75)", &mut rng),
        Ok(JsonValue::Bool(_))
    ));
}

#[test]
fn test_generate_by_key_color_methods() {
    assert!(expect_string("color.hexColor").starts_with('#'));
    assert!(expect_string("color.rgbColor").starts_with("rgb("));
    assert!(expect_string("color.rgbaColor").starts_with("rgba("));
    assert!(expect_string("color.hslColor").starts_with("hsl("));
    assert!(expect_string("color.hslaColor").starts_with("hsla("));
    assert!(!expect_string("color.color").is_empty());
}

#[test]
fn test_generate_by_key_chrono_methods() {
    assert!(!expect_string("chrono.time").is_empty());
    assert_eq!(expect_string("chrono.date").len(), 10);
    assert!(expect_string("chrono.dateTime").contains('T'));
    assert!(!expect_string("chrono.duration").is_empty());
    assert!(!expect_string("chrono.dateTimeBefore").is_empty());
    assert!(!expect_string("chrono.dateTimeAfter").is_empty());
    assert!(!expect_string("chrono.dateTimeBetween(2024-01-01 00:00:00, 2024-12-31T23:59:59)")
        .is_empty());
}

#[test]
fn test_generate_by_key_time_methods() {
    assert!(!expect_string("time.time").is_empty());
    assert_eq!(expect_string("time.date").len(), 10);
    assert!(expect_string("time.dateTime").contains('T'));
    assert!(!expect_string("time.duration").is_empty());
    assert!(!expect_string("time.dateTimeBefore").is_empty());
    assert!(!expect_string("time.dateTimeAfter").is_empty());
    assert!(!expect_string("time.dateTimeBetween").is_empty());
}

#[test]
fn test_generate_by_key_company_methods() {
    assert!(!expect_string("company.companySuffix").is_empty());
    assert!(!expect_string("company.companyName").is_empty());
    assert!(!expect_string("company.buzzword").is_empty());
    assert!(!expect_string("company.profession").is_empty());
    assert!(!expect_string("company.industry").is_empty());
}

#[test]
fn test_generate_by_key_http_methods() {
    let generator = create_test_generator();
    let mut rng = create_test_rng();
    match generator.generate_by_key("http.rfcStatusCode", &mut rng) {
        Ok(JsonValue::Int(code)) => assert!((100..=599).contains(&code)),
        _ => panic!("Expected a numeric status code"),
    }
    match generator.generate_by_key("http.validStatusCode", &mut rng) {
        Ok(JsonValue::Int(code)) => assert!((200..=299).contains(&code)),
        _ => panic!("Expected a numeric status code"),
    }
}

#[test]
fn test_generate_by_key_internet_methods() {
    assert!(!expect_string("internet.freeEmailProvider").is_empty());
    assert!(expect_string("internet.username").contains('.'));
    let pw = expect_string("internet.password");
    assert!((8..=16).contains(&pw.len()));
    let pw2 = expect_string("internet.password(12..20)");
    assert!((12..=20).contains(&pw2.len()));
    assert_eq!(expect_string("internet.IPv4").split('.').count(), 4);
    assert_eq!(expect_string("internet.IPv6").split(':').count(), 8);
}

#[test]
fn test_generate_by_key_job_methods() {
    assert!(!expect_string("job.seniority").is_empty());
    assert!(!expect_string("job.field").is_empty());
    assert!(!expect_string("job.position").is_empty());
    assert!(!expect_string("job.title").is_empty());
}

#[test]
fn test_generate_by_key_lorem_methods() {
    assert!(!expect_string("lorem.word").is_empty());
    let word_count = expect_string("lorem.words(5)").split(' ').count();
    assert!((5..=8).contains(&word_count));
    assert!(expect_string("lorem.sentence").ends_with('.'));
    assert!(!expect_string("lorem.sentences").is_empty());
    assert!(!expect_string("lorem.paragraph").is_empty());
    assert!(!expect_string("lorem.paragraphs").is_empty());
}

#[test]
fn test_generate_by_key_name_methods() {
    assert!(!expect_string("name.firstName").is_empty());
    assert!(!expect_string("name.lastName").is_empty());
    assert!(!expect_string("name.title").is_empty());
    assert!(!expect_string("name.suffix").is_empty());
    assert!(expect_string("name.name").contains(' '));
    assert!(expect_string("name.nameWithTitle").split(' ').count() == 3);
}

#[test]
fn test_generate_by_key_number_methods() {
    let generator = create_test_generator();
    let mut rng = create_test_rng();
    match generator.generate_by_key("number.digit", &mut rng) {
        Ok(JsonValue::Int(d)) => assert!((0..=9).contains(&d)),
        _ => panic!("Expected a numeric digit"),
    }
    let formatted = expect_string("phone_number.phoneNumber");
    assert_eq!(formatted.len(), "###-###-####".len());
    assert!(formatted.chars().filter(|c| *c == '-').count() == 2);
}

#[test]
fn test_generate_by_key_filesystem_methods() {
    assert!(expect_string("filesystem.filePath").starts_with("/home/user/"));
    assert!(expect_string("filesystem.fileName").contains('.'));
    assert!(!expect_string("filesystem.fileExtension").is_empty());
    assert!(expect_string("filesystem.dirPath").starts_with("/usr/share/"));
    assert!(expect_string("filesystem.mimeType").contains('/'));
    assert_eq!(expect_string("filesystem.semverStable").split('.').count(), 3);
    assert!(expect_string("filesystem.semverUnstable").contains("-rc."));
}

#[test]
fn test_generate_by_key_identifier_methods() {
    let uuid = expect_string("uuid.v4");
    assert_eq!(uuid.len(), 36);
    assert_eq!(uuid.split('-').count(), 5);

    let ulid = expect_string("ulid");
    assert_eq!(ulid.len(), 26);
}

#[test]
fn test_generate_by_key_unknown_key() {
    let generator = create_test_generator();
    let mut rng = create_test_rng();
    match generator.generate_by_key("unknown.key", &mut rng) {
        Err(message) => assert_eq!(message, "Error to generate unknown key ${unknown.key}"),
        Ok(_) => panic!("An unknown key must be refused"),
    }
}

#[test]
fn test_generate_by_key_is_deterministic_per_seed() {
    let generator = create_test_generator();
    let mut rng1 = Prng::seed_from_u64(7);
    let mut rng2 = Prng::seed_from_u64(7);
    let a = generator.generate_by_key("uuid.v4", &mut rng1);
    let b = generator.generate_by_key("uuid.v4", &mut rng2);
    match (a, b) {
        (Ok(JsonValue::Str(x)), Ok(JsonValue::Str(y))) => assert_eq!(x, y),
        _ => panic!("Expected identifier strings"),
    }
}

#[test]
fn test_generate_by_key_markdown_methods() {
    assert!(expect_string("markdown.italicWord").starts_with('*'));
    assert!(expect_string("markdown.boldWord").starts_with("**"));
    assert!(expect_string("markdown.link").starts_with('['));
    assert!(expect_string("markdown.bulletPoints").starts_with("* "));
    assert!(expect_string("markdown.listItems").starts_with("1. "));
    assert!(expect_string("markdown.blockQuoteSingleLine").starts_with("> "));
    assert!(expect_string("markdown.blockQuoteMultiLine").starts_with("> "));
    assert!(expect_string("markdown.code").starts_with("```"));
}

#[test]
fn test_generate_by_key_currency_methods() {
    assert_eq!(expect_string("currency.currencyCode").len(), 3);
    assert!(!expect_string("currency.currencyName").is_empty());
    assert!(!expect_string("currency.currencySymbol").is_empty());
}

#[test]
fn test_generate_by_key_finance_methods() {
    assert_eq!(expect_string("finance.bic").len(), 8);
    assert_eq!(expect_string("finance.isin").len(), 12);
}

#[test]
fn test_generate_by_key_misc_methods() {
    assert_eq!(expect_string("creditcard.creditCardNumber").len(), 19);
    assert_eq!(expect_string("administrative.healthInsuranceCode").len(), 13);
    let plate = expect_string("automotive.licencePlate");
    assert_eq!(plate.len(), 9);
    assert_eq!(plate.chars().filter(|c| *c == '-').count(), 2);
    assert_eq!(expect_string("address.zipCode").len(), 5);
    assert_eq!(expect_string("address.postCode").len(), 5);
    assert!(expect_string("address.secondaryAddress").len() > 4);
    assert!(expect_string("address.latitude").contains('.'));
    assert!(expect_string("address.longitude").contains('.'));
    assert!(!expect_string("address.timeZone").is_empty());
    assert!(!expect_string("address.stateName").is_empty());
    assert_eq!(expect_string("address.stateAbbr").len(), 2);
    assert!(!expect_string("address.streetName").is_empty());
    assert!(!expect_string("internet.userAgent").is_empty());
    assert!(expect_string("internet.freeEmail").contains('@'));
    assert!(expect_string("internet.safeEmail").ends_with("@example.com"));
    assert!(expect_string("internet.MACAddress").split(':').count() == 6);
    let ip = expect_string("internet.IP");
    assert!(ip.contains('.') || ip.contains(':'));
}

#[test]
fn test_generate_by_key_number_with_format() {
    let formatted = expect_string("number.numberWithFormat<'a>(##-##)");
    assert_eq!(formatted.len(), 5);
    assert_eq!(&formatted[2..3], "-");
}
