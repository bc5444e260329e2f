//! The value catalog: realistic values for template keys.
//!
//! A placeholder key such as `name.firstName` resolves here.  Every draw
//! flows through the run's random stream, so a seeded run reproduces the same
//! values.  The catalog is the engine's external collaborator: the engine
//! relies only on which keys exist and, for a few, on the type of the value.
//! Identifier keys call the `uuid` and `ulid` crates from random material,
//! and the calendar keys format their instants through `chrono` and `time`.

use vstd::prelude::*;
use vstd::string::{StringExecFns, StrSliceExecFns};
use crate::rng::Prng;
use crate::value::{JsonValue, JsonV, str_eq};
use crate::arguments::Arguments;
use crate::key_parser::{KeyParser, spec_pattern_key};
use crate::locales::LocalesKeys;
use crate::numfmt::{u64_to_string, i64_to_string, digit_char};
use crate::strutil::push_char;
use crate::externs::{
    uuid_hyphenated, ulid_string, chrono_rfc3339_millis, chrono_date_string, chrono_time_string,
    chrono_duration_string, time_rfc3339_string, time_date_string, time_time_string,
    MAX_EPOCH_MILLIS, MAX_EPOCH_SECS,
};

verus! {

broadcast use vstd::string::group_string_axioms;

/// The fixed instant the calendar keys treat as the present: the first moment
/// of 2025, UTC, in Unix milliseconds.  A fixed reference keeps seeded runs
/// reproducible.
pub const REFERENCE_NOW_MILLIS: i64 = 1735689600000;

/// One year of milliseconds.
pub const YEAR_MILLIS: i64 = 31536000000;

/// Whether the catalog understands a key.
pub open spec fn spec_known_key(key: Seq<char>) -> bool {
    ||| key == "address.cityPrefix"@
    ||| key == "address.citySuffix"@
    ||| key == "address.cityName"@
    ||| key == "address.countryName"@
    ||| key == "address.countryCode"@
    ||| key == "address.streetSuffix"@
    ||| key == "address.streetName"@
    ||| key == "address.timeZone"@
    ||| key == "address.stateName"@
    ||| key == "address.stateAbbr"@
    ||| key == "address.secondaryAddressType"@
    ||| key == "address.secondaryAddress"@
    ||| key == "address.zipCode"@
    ||| key == "address.postCode"@
    ||| key == "address.buildingNumber"@
    ||| key == "address.latitude"@
    ||| key == "address.longitude"@
    ||| key == "address.geohash"@
    ||| key == "barcode.isbn"@
    ||| key == "barcode.isbn10"@
    ||| key == "barcode.isbn13"@
    ||| key == "boolean.boolean"@
    ||| key == "color.hexColor"@
    ||| key == "color.rgbColor"@
    ||| key == "color.rgbaColor"@
    ||| key == "color.hslColor"@
    ||| key == "color.hslaColor"@
    ||| key == "color.color"@
    ||| key == "chrono.time"@
    ||| key == "chrono.date"@
    ||| key == "chrono.dateTime"@
    ||| key == "chrono.duration"@
    ||| key == "chrono.dateTimeBefore"@
    ||| key == "chrono.dateTimeAfter"@
    ||| key == "chrono.dateTimeBetween"@
    ||| key == "time.time"@
    ||| key == "time.date"@
    ||| key == "time.dateTime"@
    ||| key == "time.duration"@
    ||| key == "time.dateTimeBefore"@
    ||| key == "time.dateTimeAfter"@
    ||| key == "time.dateTimeBetween"@
    ||| key == "creditcard.creditCardNumber"@
    ||| key == "company.companySuffix"@
    ||| key == "company.companyName"@
    ||| key == "company.buzzword"@
    ||| key == "company.buzzwordMiddle"@
    ||| key == "company.buzzwordTail"@
    ||| key == "company.catchPhrase"@
    ||| key == "company.bsVerb"@
    ||| key == "company.bsAdj"@
    ||| key == "company.bsNoun"@
    ||| key == "company.bs"@
    ||| key == "company.profession"@
    ||| key == "company.industry"@
    ||| key == "http.rfcStatusCode"@
    ||| key == "http.validStatusCode"@
    ||| key == "internet.freeEmailProvider"@
    ||| key == "internet.domainSuffix"@
    ||| key == "internet.freeEmail"@
    ||| key == "internet.safeEmail"@
    ||| key == "internet.username"@
    ||| key == "internet.password"@
    ||| key == "internet.IPv4"@
    ||| key == "internet.IPv6"@
    ||| key == "internet.IP"@
    ||| key == "internet.MACAddress"@
    ||| key == "internet.userAgent"@
    ||| key == "job.seniority"@
    ||| key == "job.field"@
    ||| key == "job.position"@
    ||| key == "job.title"@
    ||| key == "lorem.word"@
    ||| key == "lorem.words"@
    ||| key == "lorem.sentence"@
    ||| key == "lorem.sentences"@
    ||| key == "lorem.paragraph"@
    ||| key == "lorem.paragraphs"@
    ||| key == "markdown.italicWord"@
    ||| key == "markdown.boldWord"@
    ||| key == "markdown.link"@
    ||| key == "markdown.bulletPoints"@
    ||| key == "markdown.listItems"@
    ||| key == "markdown.blockQuoteSingleLine"@
    ||| key == "markdown.blockQuoteMultiLine"@
    ||| key == "markdown.code"@
    ||| key == "name.firstName"@
    ||| key == "name.lastName"@
    ||| key == "name.title"@
    ||| key == "name.suffix"@
    ||| key == "name.name"@
    ||| key == "name.nameWithTitle"@
    ||| key == "number.digit"@
    ||| key == "number.numberWithFormat<'a>"@
    ||| key == "phone_number.phoneNumber"@
    ||| key == "phone_number.cellNumber"@
    ||| key == "filesystem.filePath"@
    ||| key == "filesystem.fileName"@
    ||| key == "filesystem.fileExtension"@
    ||| key == "filesystem.dirPath"@
    ||| key == "filesystem.mimeType"@
    ||| key == "filesystem.semver"@
    ||| key == "filesystem.semverStable"@
    ||| key == "filesystem.semverUnstable"@
    ||| key == "currency.currencyCode"@
    ||| key == "currency.currencyName"@
    ||| key == "currency.currencySymbol"@
    ||| key == "finance.bic"@
    ||| key == "finance.isin"@
    ||| key == "administrative.healthInsuranceCode"@
    ||| key == "automotive.licencePlate"@
    ||| key == "ulid"@
    ||| key == "uuid.v4"@
}

/// Picks one option.
fn pick(rng: &mut Prng, opts: &[&str]) -> (r: String)
    requires
        opts@.len() > 0,
{
    let i = rng.next_index(opts.len());
    opts[i].to_owned()
}

/// Appends `n` random decimal digits.
fn push_digits(rng: &mut Prng, out: &mut String, n: usize) {
    let mut i: usize = 0;
    while i < n
        decreases n - i,
    {
        let d = rng.next_u64_in(0, 9);
        push_char(out, digit_char(d));
        i = i + 1;
    }
}

/// `n` random characters out of a table.
fn rand_chars(rng: &mut Prng, table: &[char], n: usize) -> (r: String)
    requires
        table@.len() > 0,
{
    let mut out = String::new();
    let mut i: usize = 0;
    while i < n
        invariant
            table@.len() > 0,
        decreases n - i,
    {
        let k = rng.next_index(table.len());
        push_char(&mut out, table[k]);
        i = i + 1;
    }
    out
}

/// A copy of `fmt` with every `#` replaced by a random digit.
fn fmt_hash(rng: &mut Prng, fmt: &str) -> (r: String)
{
    let v = crate::strutil::to_chars(fmt);
    let mut out = String::new();
    let mut i: usize = 0;
    while i < v.len()
        decreases v@.len() - i,
    {
        if v[i] == '#' {
            let d = rng.next_u64_in(0, 9);
            push_char(&mut out, digit_char(d));
        } else {
            push_char(&mut out, v[i]);
        }
        i = i + 1;
    }
    out
}

/// A count drawn from an argument range, clamped into `[0, cap]`.
fn draw_count(rng: &mut Prng, args: &Arguments, lo: i64, hi: i64, cap: u64) -> (r: u64)
    ensures
        r <= cap,
{
    let range = args.get_number_range(lo, hi);
    let a: i64 = range.start;
    let b: i64 = range.end;
    let picked: i64 = if a <= b {
        rng.next_i64_in(a, b)
    } else {
        a
    };
    if picked < 0 {
        0
    } else if picked as u64 > cap {
        cap
    } else {
        picked as u64
    }
}

/// A latitude- or longitude-shaped decimal text in `[-bound, bound]`.
fn geo_coord(rng: &mut Prng, bound: i64) -> (r: String)
    requires
        0 < bound < 1000,
{
    let deg = rng.next_i64_in(-bound, bound);
    let mut out = i64_to_string(deg);
    push_char(&mut out, '.');
    push_digits(rng, &mut out, 6);
    out
}

/// One lorem word.
fn lorem_word(rng: &mut Prng) -> (r: String) {
    pick(
        rng,
        &[
            "lorem", "ipsum", "dolor", "sit", "amet", "consectetur", "adipiscing", "elit", "sed",
            "eiusmod", "tempor", "incididunt", "labore", "dolore", "magna", "aliqua", "veniam",
            "quis", "nostrud", "exercitation",
        ],
    )
}

/// `n` lorem words joined with spaces.
fn lorem_words(rng: &mut Prng, n: u64) -> (r: String) {
    let mut out = String::new();
    let mut i: u64 = 0;
    while i < n
        decreases n - i,
    {
        if i > 0 {
            push_char(&mut out, ' ');
        }
        let w = lorem_word(rng);
        out.append(w.as_str());
        i = i + 1;
    }
    out
}

/// A sentence of `n` words, closed with a period.
fn lorem_sentence(rng: &mut Prng, n: u64) -> (r: String) {
    let mut out = lorem_words(rng, n);
    push_char(&mut out, '.');
    out
}

/// `n` sentences joined with spaces.
fn lorem_sentences(rng: &mut Prng, n: u64) -> (r: String) {
    let mut out = String::new();
    let mut i: u64 = 0;
    while i < n
        decreases n - i,
    {
        if i > 0 {
            push_char(&mut out, ' ');
        }
        let s = lorem_sentence(rng, 6);
        out.append(s.as_str());
        i = i + 1;
    }
    out
}

/// `n` paragraphs of sentences, separated by blank lines.
fn lorem_paragraphs(rng: &mut Prng, n: u64) -> (r: String) {
    let mut out = String::new();
    let mut i: u64 = 0;
    while i < n
        decreases n - i,
    {
        if i > 0 {
            push_char(&mut out, '\n');
        }
        let s = lorem_sentences(rng, 4);
        out.append(s.as_str());
        i = i + 1;
    }
    out
}

/// A first name.
fn first_name(rng: &mut Prng) -> (r: String) {
    pick(
        rng,
        &[
            "James", "Mary", "John", "Patricia", "Robert", "Jennifer", "Michael", "Linda",
            "David", "Elizabeth", "William", "Barbara", "Richard", "Susan", "Joseph", "Jessica",
            "Thomas", "Sarah", "Charles", "Karen",
        ],
    )
}

/// A last name.
fn last_name(rng: &mut Prng) -> (r: String) {
    pick(
        rng,
        &[
            "Smith", "Johnson", "Williams", "Brown", "Jones", "Garcia", "Miller", "Davis",
            "Rodriguez", "Martinez", "Hernandez", "Lopez", "Gonzalez", "Wilson", "Anderson",
            "Thomas", "Taylor", "Moore", "Jackson", "Martin",
        ],
    )
}

/// A lowercase username: a first name, a dot, a last name.
fn username(rng: &mut Prng) -> (r: String) {
    let mut out = first_name(rng);
    push_char(&mut out, '.');
    let l = last_name(rng);
    out.append(l.as_str());
    out
}

/// A dotted quad address.
fn ipv4(rng: &mut Prng) -> (r: String) {
    let mut out = String::new();
    let mut i: usize = 0;
    while i < 4
        decreases 4 - i,
    {
        if i > 0 {
            push_char(&mut out, '.');
        }
        let octet = rng.next_u64_in(0, 255);
        let t = u64_to_string(octet);
        out.append(t.as_str());
        i = i + 1;
    }
    out
}

/// Eight groups of four hexadecimal digits.
fn ipv6(rng: &mut Prng) -> (r: String) {
    let hex: [char; 16] = [
        '0', '1', '2', '3', '4', '5', '6', '7', '8', '9', 'a', 'b', 'c', 'd', 'e', 'f',
    ];
    let mut out = String::new();
    let mut i: usize = 0;
    while i < 8
        decreases 8 - i,
    {
        if i > 0 {
            push_char(&mut out, ':');
        }
        let g = rand_chars(rng, hex.as_slice(), 4);
        out.append(g.as_str());
        i = i + 1;
    }
    out
}

/// Six hexadecimal pairs joined with colons.
fn mac_address(rng: &mut Prng) -> (r: String) {
    let hex: [char; 16] = [
        '0', '1', '2', '3', '4', '5', '6', '7', '8', '9', 'a', 'b', 'c', 'd', 'e', 'f',
    ];
    let mut out = String::new();
    let mut i: usize = 0;
    while i < 6
        decreases 6 - i,
    {
        if i > 0 {
            push_char(&mut out, ':');
        }
        let g = rand_chars(rng, hex.as_slice(), 2);
        out.append(g.as_str());
        i = i + 1;
    }
    out
}

/// A semantic version `x.y.z`, optionally with a pre-release tag.
fn semver(rng: &mut Prng, unstable: bool) -> (r: String) {
    let major = rng.next_u64_in(0, 9);
    let minor = rng.next_u64_in(0, 20);
    let patch = rng.next_u64_in(0, 20);
    let mut out = u64_to_string(major);
    push_char(&mut out, '.');
    let t = u64_to_string(minor);
    out.append(t.as_str());
    push_char(&mut out, '.');
    let t = u64_to_string(patch);
    out.append(t.as_str());
    if unstable {
        out.append("-rc.");
        let rc = rng.next_u64_in(1, 9);
        let t = u64_to_string(rc);
        out.append(t.as_str());
    }
    out
}

/// A UTC instant drawn between two bounds, clamped into the representable
/// calendar range, as RFC 3339 text through `chrono`.
fn chrono_between(rng: &mut Prng, lo: i64, hi: i64) -> (r: String) {
    let a: i64 = if lo < 0 {
        0
    } else if lo > MAX_EPOCH_MILLIS {
        MAX_EPOCH_MILLIS
    } else {
        lo
    };
    let b: i64 = if hi < a {
        a
    } else if hi > MAX_EPOCH_MILLIS {
        MAX_EPOCH_MILLIS
    } else {
        hi
    };
    let ms = rng.next_i64_in(a, b);
    chrono_rfc3339_millis(ms)
}

/// A UTC instant drawn between two bounds, as RFC 3339 text through `time`.
fn time_between(rng: &mut Prng, lo: i64, hi: i64) -> (r: String) {
    let a: i64 = if lo < 0 {
        0
    } else if lo > MAX_EPOCH_SECS {
        MAX_EPOCH_SECS
    } else {
        lo
    };
    let b: i64 = if hi < a {
        a
    } else if hi > MAX_EPOCH_SECS {
        MAX_EPOCH_SECS
    } else {
        hi
    };
    let secs = rng.next_i64_in(a, b);
    time_rfc3339_string(secs)
}

/// The value catalog, fixed at construction to one locale.
pub struct FakeGenerator {
    /// The locale the run asked for.  One table of realistic values serves
    /// every locale today; the choice is recorded for catalogs that carry
    /// localized tables.
    pub locale: LocalesKeys,
}

impl FakeGenerator {
    /// A catalog for the named locale; an unknown code falls back to English.
    pub fn new(locale: &str) -> (r: FakeGenerator)
        ensures
            r.locale == crate::locales::spec_locale_of(locale@),
    {
        FakeGenerator { locale: LocalesKeys::from_code(locale) }
    }

    /// Resolves one placeholder pattern to a value.
    ///
    /// The pattern's key picks the generator; its arguments, where a
    /// generator takes any, tune it.  Exactly the known keys succeed; a few
    /// keys promise their value's type, which full-match substitution
    /// preserves.
    pub fn generate_by_key(&self, pattern: &str, rng: &mut Prng) -> (r: Result<JsonValue, String>)
        ensures
            r is Ok <==> spec_known_key(spec_pattern_key(pattern@)),
            (spec_pattern_key(pattern@) == "number.digit"@ && r is Ok) ==> (r matches Ok(v)
                && v@ matches JsonV::Int(d) && 0 <= d <= 9),
            (spec_pattern_key(pattern@) == "boolean.boolean"@ && r is Ok) ==> (r matches Ok(v)
                && v@ is Bool),
            (spec_pattern_key(pattern@) == "http.validStatusCode"@ && r is Ok) ==> (r matches Ok(
                v,
            ) && v@ is Int),
            (spec_pattern_key(pattern@) == "http.rfcStatusCode"@ && r is Ok) ==> (r matches Ok(v)
                && v@ is Int),
            (spec_pattern_key(pattern@) != "number.digit"@ && spec_pattern_key(pattern@)
                != "boolean.boolean"@ && spec_pattern_key(pattern@) != "http.rfcStatusCode"@
                && spec_pattern_key(pattern@) != "http.validStatusCode"@ && r is Ok) ==> (r
                matches Ok(v) && v@ is Str),
    {
        proof {
            reveal_strlit("number.digit");
            reveal_strlit("boolean.boolean");
            reveal_strlit("http.rfcStatusCode");
            reveal_strlit("http.validStatusCode");
            assert("number.digit"@.len() == 12);
            assert("boolean.boolean"@.len() == 15);
            assert("http.rfcStatusCode"@.len() == 18);
            assert("http.validStatusCode"@.len() == 20);
        }
        let parsed = KeyParser::parse(pattern);
        let key = parsed.key.as_str();
        let args = &parsed.arguments;
        if str_eq(key, "number.digit") {
            let d = rng.next_i64_in(0, 9);
            return Ok(JsonValue::Int(d));
        }
        if str_eq(key, "boolean.boolean") {
            let ratio = args.get_number(5);
            let k = rng.next_i64_in(0, 99);
            return Ok(JsonValue::Bool(k < ratio));
        }
        if str_eq(key, "http.rfcStatusCode") {
            let codes: [i64; 12] = [100, 200, 201, 204, 301, 302, 400, 401, 403, 404, 500, 503];
            let i = rng.next_index(12);
            return Ok(JsonValue::Int(codes[i]));
        }
        if str_eq(key, "http.validStatusCode") {
            let codes: [i64; 8] = [200, 201, 202, 203, 204, 205, 206, 226];
            let i = rng.next_index(8);
            return Ok(JsonValue::Int(codes[i]));
        }
        self.generate_plain(key, args, rng)
    }

    /// Resolves every catalog key that carries no typed promise.
    #[verifier::rlimit(100)]
    fn generate_plain(&self, key: &str, args: &Arguments, rng: &mut Prng) -> (r: Result<
        JsonValue,
        String,
    >)
        requires
            key@ != "number.digit"@,
            key@ != "boolean.boolean"@,
            key@ != "http.rfcStatusCode"@,
            key@ != "http.validStatusCode"@,
        ensures
            r is Ok <==> spec_known_key(key@),
            r matches Ok(v) ==> v@ is Str,
    {
        if str_eq(key, "address.cityPrefix") {
            Ok(JsonValue::Str(pick(rng, &["North", "East", "West", "South", "New", "Lake", "Port"])))
        } else if str_eq(key, "address.citySuffix") {
            Ok(JsonValue::Str(pick(rng, &["town", "ton", "land", "ville", "berg", "borough", "view", "port", "mouth", "field"])))
        } else if str_eq(key, "address.cityName") {
            let mut base = pick(rng, &["Spring", "River", "Oak", "Maple", "Cedar", "Lake", "Hill", "Stone"]);
            let suffix = pick(rng, &["town", "ton", "land", "ville", "berg", "view", "field"]);
            base.append(suffix.as_str());
            Ok(JsonValue::Str(base))
        } else if str_eq(key, "address.countryName") {
            Ok(JsonValue::Str(pick(rng, &["United States", "United Kingdom", "Germany", "France", "Italy", "Spain", "Brazil", "Japan"])))
        } else if str_eq(key, "address.countryCode") {
            Ok(JsonValue::Str(pick(rng, &["US", "GB", "DE", "FR", "IT", "ES", "BR", "JP"])))
        } else if str_eq(key, "address.streetSuffix") {
            Ok(JsonValue::Str(pick(rng, &["Street", "Avenue", "Boulevard", "Lane", "Road", "Way"])))
        } else if str_eq(key, "address.streetName") {
            let mut out = last_name(rng);
            push_char(&mut out, ' ');
            let suffix = pick(rng, &["Street", "Avenue", "Boulevard", "Lane", "Road", "Way"]);
            out.append(suffix.as_str());
            Ok(JsonValue::Str(out))
        } else if str_eq(key, "address.timeZone") {
            Ok(JsonValue::Str(pick(rng, &["Europe/Paris", "America/New_York", "Asia/Tokyo", "Europe/Berlin", "Australia/Sydney", "America/Sao_Paulo"])))
        } else if str_eq(key, "address.stateName") {
            Ok(JsonValue::Str(pick(rng, &["California", "Texas", "New York", "Florida", "Ohio", "Oregon", "Nevada", "Maine"])))
        } else if str_eq(key, "address.stateAbbr") {
            Ok(JsonValue::Str(pick(rng, &["CA", "TX", "NY", "FL", "OH", "OR", "NV", "ME"])))
        } else if str_eq(key, "address.secondaryAddressType") {
            Ok(JsonValue::Str(pick(rng, &["Apt.", "Suite"])))
        } else if str_eq(key, "address.secondaryAddress") {
            let mut out = pick(rng, &["Apt.", "Suite"]);
            push_char(&mut out, ' ');
            push_digits(rng, &mut out, 3);
            Ok(JsonValue::Str(out))
        } else if str_eq(key, "address.zipCode") {
            let mut out = String::new();
            push_digits(rng, &mut out, 5);
            Ok(JsonValue::Str(out))
        } else if str_eq(key, "address.postCode") {
            let mut out = String::new();
            push_digits(rng, &mut out, 5);
            Ok(JsonValue::Str(out))
        } else if str_eq(key, "address.buildingNumber") {
            let mut out = String::new();
            push_digits(rng, &mut out, 3);
            Ok(JsonValue::Str(out))
        } else if str_eq(key, "address.latitude") {
            Ok(JsonValue::Str(geo_coord(rng, 89)))
        } else if str_eq(key, "address.longitude") {
            Ok(JsonValue::Str(geo_coord(rng, 179)))
        } else if str_eq(key, "address.geohash") {
            let precision = draw_count(rng, args, 5, 5, 12);
            let table: [char; 32] = [
                '0', '1', '2', '3', '4', '5', '6', '7', '8', '9', 'b', 'c', 'd', 'e', 'f', 'g',
                'h', 'j', 'k', 'm', 'n', 'p', 'q', 'r', 's', 't', 'u', 'v', 'w', 'x', 'y', 'z',
            ];
            Ok(JsonValue::Str(rand_chars(rng, table.as_slice(), precision as usize)))
        } else if str_eq(key, "barcode.isbn") || str_eq(key, "barcode.isbn13") {
            let mut out = String::new();
            out.append("978-");
            push_digits(rng, &mut out, 9);
            push_char(&mut out, '-');
            push_digits(rng, &mut out, 1);
            Ok(JsonValue::Str(out))
        } else if str_eq(key, "barcode.isbn10") {
            let mut out = String::new();
            push_digits(rng, &mut out, 9);
            push_char(&mut out, '-');
            push_digits(rng, &mut out, 1);
            Ok(JsonValue::Str(out))
        } else if str_eq(key, "color.hexColor") {
            let hex: [char; 16] = [
                '0', '1', '2', '3', '4', '5', '6', '7', '8', '9', 'a', 'b', 'c', 'd', 'e', 'f',
            ];
            let mut out = String::new();
            push_char(&mut out, '#');
            let t = rand_chars(rng, hex.as_slice(), 6);
            out.append(t.as_str());
            Ok(JsonValue::Str(out))
        } else if str_eq(key, "color.rgbColor") {
            let mut out = String::new();
            out.append("rgb(");
            let a = u64_to_string(rng.next_u64_in(0, 255));
            out.append(a.as_str());
            out.append(", ");
            let b = u64_to_string(rng.next_u64_in(0, 255));
            out.append(b.as_str());
            out.append(", ");
            let c = u64_to_string(rng.next_u64_in(0, 255));
            out.append(c.as_str());
            out.append(")");
            Ok(JsonValue::Str(out))
        } else if str_eq(key, "color.rgbaColor") {
            let mut out = String::new();
            out.append("rgba(");
            let a = u64_to_string(rng.next_u64_in(0, 255));
            out.append(a.as_str());
            out.append(", ");
            let b = u64_to_string(rng.next_u64_in(0, 255));
            out.append(b.as_str());
            out.append(", ");
            let c = u64_to_string(rng.next_u64_in(0, 255));
            out.append(c.as_str());
            out.append(", 0.");
            push_digits(rng, &mut out, 1);
            out.append(")");
            Ok(JsonValue::Str(out))
        } else if str_eq(key, "color.hslColor") {
            let mut out = String::new();
            out.append("hsl(");
            let h = u64_to_string(rng.next_u64_in(0, 359));
            out.append(h.as_str());
            out.append(", ");
            let s = u64_to_string(rng.next_u64_in(0, 100));
            out.append(s.as_str());
            out.append("%, ");
            let l = u64_to_string(rng.next_u64_in(0, 100));
            out.append(l.as_str());
            out.append("%)");
            Ok(JsonValue::Str(out))
        } else if str_eq(key, "color.hslaColor") {
            let mut out = String::new();
            out.append("hsla(");
            let h = u64_to_string(rng.next_u64_in(0, 359));
            out.append(h.as_str());
            out.append(", ");
            let s = u64_to_string(rng.next_u64_in(0, 100));
            out.append(s.as_str());
            out.append("%, ");
            let l = u64_to_string(rng.next_u64_in(0, 100));
            out.append(l.as_str());
            out.append("%, 0.");
            push_digits(rng, &mut out, 1);
            out.append(")");
            Ok(JsonValue::Str(out))
        } else if str_eq(key, "color.color") {
            Ok(JsonValue::Str(pick(rng, &["red", "green", "blue", "yellow", "purple", "orange", "black", "white", "teal", "maroon"])))
        } else if str_eq(key, "chrono.time") {
            let secs = rng.next_i64_in(0, 86399);
            Ok(JsonValue::Str(chrono_time_string(secs)))
        } else if str_eq(key, "chrono.date") {
            let secs = rng.next_i64_in(0, 4102444799);
            Ok(JsonValue::Str(chrono_date_string(secs)))
        } else if str_eq(key, "chrono.dateTime") {
            Ok(JsonValue::Str(chrono_between(rng, 0, 4102444799999)))
        } else if str_eq(key, "chrono.duration") {
            let secs = rng.next_i64_in(0, 31536000);
            Ok(JsonValue::Str(chrono_duration_string(secs)))
        } else if str_eq(key, "chrono.dateTimeBefore") {
            let dt = args.get_datetime(REFERENCE_NOW_MILLIS);
            Ok(JsonValue::Str(chrono_between(rng, 0, dt)))
        } else if str_eq(key, "chrono.dateTimeAfter") {
            let dt = args.get_datetime(REFERENCE_NOW_MILLIS);
            let lo: i64 = if dt < 0 {
                0
            } else if dt > MAX_EPOCH_MILLIS - YEAR_MILLIS {
                MAX_EPOCH_MILLIS - YEAR_MILLIS
            } else {
                dt
            };
            Ok(JsonValue::Str(chrono_between(rng, lo, lo + YEAR_MILLIS)))
        } else if str_eq(key, "chrono.dateTimeBetween") {
            let bounds = args.get_datetime_range(REFERENCE_NOW_MILLIS - YEAR_MILLIS, REFERENCE_NOW_MILLIS);
            Ok(JsonValue::Str(chrono_between(rng, bounds.0, bounds.1)))
        } else if str_eq(key, "time.time") {
            let secs = rng.next_i64_in(0, 86399);
            Ok(JsonValue::Str(time_time_string(secs)))
        } else if str_eq(key, "time.date") {
            let secs = rng.next_i64_in(0, 4102444799);
            Ok(JsonValue::Str(time_date_string(secs)))
        } else if str_eq(key, "time.dateTime") {
            Ok(JsonValue::Str(time_between(rng, 0, 4102444799)))
        } else if str_eq(key, "time.duration") {
            let secs = rng.next_u64_in(0, 31536000);
            let mut out = u64_to_string(secs);
            push_char(&mut out, 's');
            Ok(JsonValue::Str(out))
        } else if str_eq(key, "time.dateTimeBefore") {
            let dt = args.get_time(REFERENCE_NOW_MILLIS / 1000);
            Ok(JsonValue::Str(time_between(rng, 0, dt)))
        } else if str_eq(key, "time.dateTimeAfter") {
            let dt = args.get_time(REFERENCE_NOW_MILLIS / 1000);
            let lo: i64 = if dt < 0 {
                0
            } else if dt > MAX_EPOCH_SECS - 31536000 {
                MAX_EPOCH_SECS - 31536000
            } else {
                dt
            };
            Ok(JsonValue::Str(time_between(rng, lo, lo + 31536000)))
        } else if str_eq(key, "time.dateTimeBetween") {
            let bounds = args.get_time_range(REFERENCE_NOW_MILLIS / 1000 - 31536000, REFERENCE_NOW_MILLIS / 1000);
            Ok(JsonValue::Str(time_between(rng, bounds.0, bounds.1)))
        } else if str_eq(key, "creditcard.creditCardNumber") {
            let out = fmt_hash(rng, "#### #### #### ####");
            Ok(JsonValue::Str(out))
        } else if str_eq(key, "company.companySuffix") {
            Ok(JsonValue::Str(pick(rng, &["Inc.", "LLC", "Group", "Ltd.", "and Sons"])))
        } else if str_eq(key, "company.companyName") {
            let mut out = last_name(rng);
            push_char(&mut out, ' ');
            let s = pick(rng, &["Inc.", "LLC", "Group", "Ltd.", "and Sons"]);
            out.append(s.as_str());
            Ok(JsonValue::Str(out))
        } else if str_eq(key, "company.buzzword") {
            Ok(JsonValue::Str(pick(rng, &["synergy", "paradigm", "leverage", "bandwidth", "alignment", "scalability"])))
        } else if str_eq(key, "company.buzzwordMiddle") {
            Ok(JsonValue::Str(pick(rng, &["driven", "enabled", "focused", "centric", "based"])))
        } else if str_eq(key, "company.buzzwordTail") {
            Ok(JsonValue::Str(pick(rng, &["solutions", "platforms", "networks", "systems", "markets"])))
        } else if str_eq(key, "company.catchPhrase") {
            let mut out = pick(rng, &["Adaptive", "Seamless", "Robust", "Visionary", "Integrated"]);
            push_char(&mut out, ' ');
            let m = pick(rng, &["driven", "enabled", "focused", "centric", "based"]);
            out.append(m.as_str());
            push_char(&mut out, ' ');
            let t = pick(rng, &["solutions", "platforms", "networks", "systems", "markets"]);
            out.append(t.as_str());
            Ok(JsonValue::Str(out))
        } else if str_eq(key, "company.bsVerb") {
            Ok(JsonValue::Str(pick(rng, &["empower", "streamline", "transform", "deliver", "optimize"])))
        } else if str_eq(key, "company.bsAdj") {
            Ok(JsonValue::Str(pick(rng, &["scalable", "dynamic", "granular", "frictionless", "holistic"])))
        } else if str_eq(key, "company.bsNoun") {
            Ok(JsonValue::Str(pick(rng, &["synergies", "channels", "markets", "architectures", "communities"])))
        } else if str_eq(key, "company.bs") {
            let mut out = pick(rng, &["empower", "streamline", "transform", "deliver", "optimize"]);
            push_char(&mut out, ' ');
            let a = pick(rng, &["scalable", "dynamic", "granular", "frictionless", "holistic"]);
            out.append(a.as_str());
            push_char(&mut out, ' ');
            let n = pick(rng, &["synergies", "channels", "markets", "architectures", "communities"]);
            out.append(n.as_str());
            Ok(JsonValue::Str(out))
        } else if str_eq(key, "company.profession") {
            Ok(JsonValue::Str(pick(rng, &["engineer", "teacher", "nurse", "architect", "designer", "carpenter"])))
        } else if str_eq(key, "company.industry") {
            Ok(JsonValue::Str(pick(rng, &["Software", "Healthcare", "Finance", "Education", "Manufacturing", "Retail"])))
        } else if str_eq(key, "internet.freeEmailProvider") {
            Ok(JsonValue::Str(pick(rng, &["gmail.com", "yahoo.com", "hotmail.com", "outlook.com"])))
        } else if str_eq(key, "internet.domainSuffix") {
            Ok(JsonValue::Str(pick(rng, &["com", "org", "net", "io", "dev"])))
        } else if str_eq(key, "internet.freeEmail") {
            let mut out = username(rng);
            push_char(&mut out, '@');
            let p = pick(rng, &["gmail.com", "yahoo.com", "hotmail.com", "outlook.com"]);
            out.append(p.as_str());
            Ok(JsonValue::Str(out))
        } else if str_eq(key, "internet.safeEmail") {
            let mut out = username(rng);
            out.append("@example.com");
            Ok(JsonValue::Str(out))
        } else if str_eq(key, "internet.username") {
            Ok(JsonValue::Str(username(rng)))
        } else if str_eq(key, "internet.password") {
            let n = draw_count(rng, args, 8, 16, 64);
            let table: [char; 36] = [
                'a', 'b', 'c', 'd', 'e', 'f', 'g', 'h', 'i', 'j', 'k', 'l', 'm', 'n', 'o', 'p',
                'q', 'r', 's', 't', 'u', 'v', 'w', 'x', 'y', 'z', '0', '1', '2', '3', '4', '5',
                '6', '7', '8', '9',
            ];
            Ok(JsonValue::Str(rand_chars(rng, table.as_slice(), n as usize)))
        } else if str_eq(key, "internet.IPv4") {
            Ok(JsonValue::Str(ipv4(rng)))
        } else if str_eq(key, "internet.IPv6") {
            Ok(JsonValue::Str(ipv6(rng)))
        } else if str_eq(key, "internet.IP") {
            let coin = rng.next_u64_in(0, 1);
            if coin == 0 {
                Ok(JsonValue::Str(ipv4(rng)))
            } else {
                Ok(JsonValue::Str(ipv6(rng)))
            }
        } else if str_eq(key, "internet.MACAddress") {
            Ok(JsonValue::Str(mac_address(rng)))
        } else if str_eq(key, "internet.userAgent") {
            Ok(JsonValue::Str(pick(rng, &[
                "Mozilla/5.0 (Windows NT 10.0; Win64; x64) AppleWebKit/537.36",
                "Mozilla/5.0 (Macintosh; Intel Mac OS X 10_15_7) AppleWebKit/605.1.15",
                "Mozilla/5.0 (X11; Linux x86_64) Gecko/20100101 Firefox/124.0",
            ])))
        } else if str_eq(key, "job.seniority") {
            Ok(JsonValue::Str(pick(rng, &["Junior", "Senior", "Lead", "Principal", "Staff"])))
        } else if str_eq(key, "job.field") {
            Ok(JsonValue::Str(pick(rng, &["Engineering", "Marketing", "Sales", "Design", "Operations"])))
        } else if str_eq(key, "job.position") {
            Ok(JsonValue::Str(pick(rng, &["Engineer", "Manager", "Analyst", "Consultant", "Director"])))
        } else if str_eq(key, "job.title") {
            let mut out = pick(rng, &["Junior", "Senior", "Lead", "Principal", "Staff"]);
            push_char(&mut out, ' ');
            let f = pick(rng, &["Engineering", "Marketing", "Sales", "Design", "Operations"]);
            out.append(f.as_str());
            push_char(&mut out, ' ');
            let p = pick(rng, &["Engineer", "Manager", "Analyst", "Consultant", "Director"]);
            out.append(p.as_str());
            Ok(JsonValue::Str(out))
        } else if str_eq(key, "lorem.word") {
            Ok(JsonValue::Str(lorem_word(rng)))
        } else if str_eq(key, "lorem.words") {
            let n = draw_count(rng, args, 3, 8, 1000);
            Ok(JsonValue::Str(lorem_words(rng, n)))
        } else if str_eq(key, "lorem.sentence") {
            let n = draw_count(rng, args, 4, 18, 1000);
            Ok(JsonValue::Str(lorem_sentence(rng, n)))
        } else if str_eq(key, "lorem.sentences") {
            let n = draw_count(rng, args, 2, 6, 100);
            Ok(JsonValue::Str(lorem_sentences(rng, n)))
        } else if str_eq(key, "lorem.paragraph") {
            let n = draw_count(rng, args, 3, 10, 100);
            Ok(JsonValue::Str(lorem_sentences(rng, n)))
        } else if str_eq(key, "lorem.paragraphs") {
            let n = draw_count(rng, args, 2, 5, 50);
            Ok(JsonValue::Str(lorem_paragraphs(rng, n)))
        } else if str_eq(key, "markdown.italicWord") {
            let mut out = String::from_str("*");
            let w = lorem_word(rng);
            out.append(w.as_str());
            push_char(&mut out, '*');
            Ok(JsonValue::Str(out))
        } else if str_eq(key, "markdown.boldWord") {
            let mut out = String::from_str("**");
            let w = lorem_word(rng);
            out.append(w.as_str());
            out.append("**");
            Ok(JsonValue::Str(out))
        } else if str_eq(key, "markdown.link") {
            let mut out = String::from_str("[");
            let w = lorem_word(rng);
            out.append(w.as_str());
            out.append("](https://example.com/");
            let p = lorem_word(rng);
            out.append(p.as_str());
            out.append(")");
            Ok(JsonValue::Str(out))
        } else if str_eq(key, "markdown.bulletPoints") {
            let n = draw_count(rng, args, 3, 8, 50);
            let mut out = String::new();
            let mut i: u64 = 0;
            while i < n
                decreases n - i,
            {
                out.append("* ");
                let w = lorem_words(rng, 3);
                out.append(w.as_str());
                push_char(&mut out, '\n');
                i = i + 1;
            }
            Ok(JsonValue::Str(out))
        } else if str_eq(key, "markdown.listItems") {
            let n = draw_count(rng, args, 3, 8, 50);
            let mut out = String::new();
            let mut i: u64 = 0;
            while i < n
                decreases n - i,
            {
                out.append("1. ");
                let w = lorem_words(rng, 3);
                out.append(w.as_str());
                push_char(&mut out, '\n');
                i = i + 1;
            }
            Ok(JsonValue::Str(out))
        } else if str_eq(key, "markdown.blockQuoteSingleLine") {
            let n = draw_count(rng, args, 4, 18, 100);
            let mut out = String::from_str("> ");
            let s = lorem_sentence(rng, n);
            out.append(s.as_str());
            Ok(JsonValue::Str(out))
        } else if str_eq(key, "markdown.blockQuoteMultiLine") {
            let n = draw_count(rng, args, 2, 6, 50);
            let mut out = String::new();
            let mut i: u64 = 0;
            while i < n
                decreases n - i,
            {
                out.append("> ");
                let s = lorem_sentence(rng, 6);
                out.append(s.as_str());
                push_char(&mut out, '\n');
                i = i + 1;
            }
            Ok(JsonValue::Str(out))
        } else if str_eq(key, "markdown.code") {
            let n = draw_count(rng, args, 3, 8, 100);
            let mut out = String::from_str("```\n");
            let w = lorem_words(rng, n);
            out.append(w.as_str());
            out.append("\n```");
            Ok(JsonValue::Str(out))
        } else if str_eq(key, "name.firstName") {
            Ok(JsonValue::Str(first_name(rng)))
        } else if str_eq(key, "name.lastName") {
            Ok(JsonValue::Str(last_name(rng)))
        } else if str_eq(key, "name.title") {
            Ok(JsonValue::Str(pick(rng, &["Mr.", "Mrs.", "Ms.", "Dr.", "Prof."])))
        } else if str_eq(key, "name.suffix") {
            Ok(JsonValue::Str(pick(rng, &["Jr.", "Sr.", "II", "III", "IV"])))
        } else if str_eq(key, "name.name") {
            let mut out = first_name(rng);
            push_char(&mut out, ' ');
            let l = last_name(rng);
            out.append(l.as_str());
            Ok(JsonValue::Str(out))
        } else if str_eq(key, "name.nameWithTitle") {
            let mut out = pick(rng, &["Mr.", "Mrs.", "Ms.", "Dr.", "Prof."]);
            push_char(&mut out, ' ');
            let f = first_name(rng);
            out.append(f.as_str());
            push_char(&mut out, ' ');
            let l = last_name(rng);
            out.append(l.as_str());
            Ok(JsonValue::Str(out))
        } else if str_eq(key, "number.numberWithFormat<'a>") {
            let fmt = args.get_string("###-###-####");
            Ok(JsonValue::Str(fmt_hash(rng, fmt)))
        } else if str_eq(key, "phone_number.phoneNumber") {
            Ok(JsonValue::Str(fmt_hash(rng, "###-###-####")))
        } else if str_eq(key, "phone_number.cellNumber") {
            Ok(JsonValue::Str(fmt_hash(rng, "(###) ###-####")))
        } else if str_eq(key, "filesystem.filePath") {
            let mut out = String::from_str("/home/user/");
            let w = lorem_word(rng);
            out.append(w.as_str());
            push_char(&mut out, '.');
            let e = pick(rng, &["txt", "pdf", "png", "json", "csv"]);
            out.append(e.as_str());
            Ok(JsonValue::Str(out))
        } else if str_eq(key, "filesystem.fileName") {
            let mut out = lorem_word(rng);
            push_char(&mut out, '.');
            let e = pick(rng, &["txt", "pdf", "png", "json", "csv"]);
            out.append(e.as_str());
            Ok(JsonValue::Str(out))
        } else if str_eq(key, "filesystem.fileExtension") {
            Ok(JsonValue::Str(pick(rng, &["txt", "pdf", "png", "json", "csv"])))
        } else if str_eq(key, "filesystem.dirPath") {
            let mut out = String::from_str("/usr/share/");
            let w = lorem_word(rng);
            out.append(w.as_str());
            Ok(JsonValue::Str(out))
        } else if str_eq(key, "filesystem.mimeType") {
            Ok(JsonValue::Str(pick(rng, &["text/plain", "application/json", "image/png", "text/html", "application/pdf"])))
        } else if str_eq(key, "filesystem.semver") {
            let coin = rng.next_u64_in(0, 1);
            Ok(JsonValue::Str(semver(rng, coin == 1)))
        } else if str_eq(key, "filesystem.semverStable") {
            Ok(JsonValue::Str(semver(rng, false)))
        } else if str_eq(key, "filesystem.semverUnstable") {
            Ok(JsonValue::Str(semver(rng, true)))
        } else if str_eq(key, "currency.currencyCode") {
            Ok(JsonValue::Str(pick(rng, &["USD", "EUR", "GBP", "JPY", "BRL", "CHF"])))
        } else if str_eq(key, "currency.currencyName") {
            Ok(JsonValue::Str(pick(rng, &["US Dollar", "Euro", "Pound Sterling", "Yen", "Real", "Swiss Franc"])))
        } else if str_eq(key, "currency.currencySymbol") {
            Ok(JsonValue::Str(pick(rng, &["$", "\u{20ac}", "\u{a3}", "\u{a5}"])))
        } else if str_eq(key, "finance.bic") {
            let upper: [char; 26] = [
                'A', 'B', 'C', 'D', 'E', 'F', 'G', 'H', 'I', 'J', 'K', 'L', 'M', 'N', 'O', 'P',
                'Q', 'R', 'S', 'T', 'U', 'V', 'W', 'X', 'Y', 'Z',
            ];
            Ok(JsonValue::Str(rand_chars(rng, upper.as_slice(), 8)))
        } else if str_eq(key, "finance.isin") {
            let mut out = pick(rng, &["US", "GB", "DE", "FR"]);
            push_digits(rng, &mut out, 10);
            Ok(JsonValue::Str(out))
        } else if str_eq(key, "administrative.healthInsuranceCode") {
            let mut out = String::new();
            push_digits(rng, &mut out, 13);
            Ok(JsonValue::Str(out))
        } else if str_eq(key, "automotive.licencePlate") {
            let upper: [char; 26] = [
                'A', 'B', 'C', 'D', 'E', 'F', 'G', 'H', 'I', 'J', 'K', 'L', 'M', 'N', 'O', 'P',
                'Q', 'R', 'S', 'T', 'U', 'V', 'W', 'X', 'Y', 'Z',
            ];
            let mut out = rand_chars(rng, upper.as_slice(), 2);
            push_char(&mut out, '-');
            push_digits(rng, &mut out, 3);
            push_char(&mut out, '-');
            let t = rand_chars(rng, upper.as_slice(), 2);
            out.append(t.as_str());
            Ok(JsonValue::Str(out))
        } else if str_eq(key, "ulid") {
            let ms = rng.next_u64_in(0, 0xFFFFFFFFFFFF);
            let hi = rng.next_u64();
            let lo = rng.next_u64();
            let payload: u128 = ((hi as u128) << 64) | (lo as u128);
            Ok(JsonValue::Str(ulid_string(ms, payload)))
        } else if str_eq(key, "uuid.v4") {
            let hi = rng.next_u64();
            let lo = rng.next_u64();
            Ok(JsonValue::Str(uuid_hyphenated(hi, lo)))
        } else {
            let mut msg = String::from_str("Error to generate unknown key ${");
            msg.append(key);
            msg.append("}");
            Err(msg)
        }
    }
}

} // verus!
