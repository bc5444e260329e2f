//! Trusted wrappers around outside crates.
//!
//! Each function here makes one call into an outside crate and converts plain
//! values on the way in and out.  Where the call's result is a pure function
//! of the arguments it carries a name (`spec_uuid_str`, ...), so that verified
//! callers can state their own results exactly.

use vstd::prelude::*;

verus! {

/// Relies on `rand::random`: one machine-entropy value, used only to seed a
/// run when the schema carries no seed.  Nothing holds of the result.
#[verifier::external_body]
pub fn entropy_u64() -> u64 {
    rand::random::<u64>()
}

pub uninterp spec fn spec_uuid_str(hi: u64, lo: u64) -> Seq<char>;

/// Relies on `uuid::Builder::from_random_bytes`: builds a version-4 UUID from
/// the sixteen given bytes and prints it hyphenated, 36 characters, a pure
/// function of the bytes.
#[verifier::external_body]
pub fn uuid_hyphenated(hi: u64, lo: u64) -> (r: String)
    ensures
        r@ == spec_uuid_str(hi, lo),
        r@.len() == 36,
{
    let mut bytes = [0u8; 16];
    bytes[..8].copy_from_slice(&hi.to_be_bytes());
    bytes[8..].copy_from_slice(&lo.to_be_bytes());
    uuid::Builder::from_random_bytes(bytes).into_uuid().to_string()
}

pub uninterp spec fn spec_ulid_str(ms: u64, rand: u128) -> Seq<char>;

/// Relies on `ulid::Ulid::from_parts`: builds a ULID from a timestamp and a
/// random payload and prints its Crockford base32 form, 26 characters, a pure
/// function of the two arguments.
#[verifier::external_body]
pub fn ulid_string(ms: u64, rand: u128) -> (r: String)
    ensures
        r@ == spec_ulid_str(ms, rand),
        r@.len() == 26,
{
    ulid::Ulid::from_parts(ms, rand).to_string()
}

/// Unix milliseconds of 9999-12-31T23:59:59.999Z: timestamps up to here are
/// well inside every range the date-time crates document.
pub const MAX_EPOCH_MILLIS: i64 = 253402300799999;

/// Unix seconds of 9999-12-31T23:59:59Z.
pub const MAX_EPOCH_SECS: i64 = 253402300799;

pub uninterp spec fn spec_rfc3339_millis(ms: i64) -> Seq<char>;

/// Relies on `chrono::DateTime::from_timestamp_millis` and `to_rfc3339`: the
/// RFC 3339 text of a UTC instant, a pure function of the milliseconds.
#[verifier::external_body]
pub fn chrono_rfc3339_millis(ms: i64) -> (r: String)
    requires
        0 <= ms <= MAX_EPOCH_MILLIS,
    ensures
        r@ == spec_rfc3339_millis(ms),
{
    chrono::DateTime::from_timestamp_millis(ms).unwrap().to_rfc3339()
}

pub uninterp spec fn spec_chrono_date_str(secs: i64) -> Seq<char>;

/// Relies on `chrono::DateTime::from_timestamp` and `format("%Y-%m-%d")`:
/// the calendar date of a UTC instant, a pure function of the seconds.
#[verifier::external_body]
pub fn chrono_date_string(secs: i64) -> (r: String)
    requires
        0 <= secs <= MAX_EPOCH_SECS,
    ensures
        r@ == spec_chrono_date_str(secs),
{
    chrono::DateTime::from_timestamp(secs, 0).unwrap().format("%Y-%m-%d").to_string()
}

pub uninterp spec fn spec_chrono_time_str(secs: i64) -> Seq<char>;

/// Relies on `chrono::DateTime::from_timestamp` and `format("%H:%M:%S")`:
/// the time of day of a UTC instant, a pure function of the seconds.
#[verifier::external_body]
pub fn chrono_time_string(secs: i64) -> (r: String)
    requires
        0 <= secs <= MAX_EPOCH_SECS,
    ensures
        r@ == spec_chrono_time_str(secs),
{
    chrono::DateTime::from_timestamp(secs, 0).unwrap().format("%H:%M:%S").to_string()
}

pub uninterp spec fn spec_chrono_duration_str(secs: i64) -> Seq<char>;

/// Relies on `chrono::TimeDelta::try_seconds` and its `Display`: the ISO 8601
/// text of a duration, a pure function of the seconds.
#[verifier::external_body]
pub fn chrono_duration_string(secs: i64) -> (r: String)
    requires
        0 <= secs <= MAX_EPOCH_SECS,
    ensures
        r@ == spec_chrono_duration_str(secs),
{
    chrono::TimeDelta::try_seconds(secs).unwrap().to_string()
}

pub uninterp spec fn spec_chrono_parse_utc(s: Seq<char>) -> Option<i64>;

/// Relies on `str::parse::<chrono::DateTime<chrono::Utc>>`: parses ISO 8601
/// text with offset, `None` exactly when the text does not parse; the instant
/// in Unix milliseconds is a pure function of the text.
#[verifier::external_body]
pub fn chrono_parse_utc(s: &str) -> (r: Option<i64>)
    ensures
        r == spec_chrono_parse_utc(s@),
{
    match s.parse::<chrono::DateTime<chrono::Utc>>() {
        Ok(dt) => Some(dt.timestamp_millis()),
        Err(_) => None,
    }
}

pub uninterp spec fn spec_chrono_parse_rfc3339(s: Seq<char>) -> Option<i64>;

/// Relies on `chrono::DateTime::parse_from_rfc3339`: parses RFC 3339 text,
/// `None` exactly when the text does not parse.
#[verifier::external_body]
pub fn chrono_parse_rfc3339(s: &str) -> (r: Option<i64>)
    ensures
        r == spec_chrono_parse_rfc3339(s@),
{
    match chrono::DateTime::parse_from_rfc3339(s) {
        Ok(dt) => Some(dt.with_timezone(&chrono::Utc).timestamp_millis()),
        Err(_) => None,
    }
}

pub uninterp spec fn spec_chrono_parse_fmt(s: Seq<char>, fmt: Seq<char>) -> Option<i64>;

/// Relies on `chrono::DateTime::parse_from_str`: parses text against a format
/// that names an offset, `None` exactly when it does not parse.
#[verifier::external_body]
pub fn chrono_parse_fmt(s: &str, fmt: &str) -> (r: Option<i64>)
    ensures
        r == spec_chrono_parse_fmt(s@, fmt@),
{
    match chrono::DateTime::parse_from_str(s, fmt) {
        Ok(dt) => Some(dt.with_timezone(&chrono::Utc).timestamp_millis()),
        Err(_) => None,
    }
}

pub uninterp spec fn spec_chrono_parse_naive(s: Seq<char>, fmt: Seq<char>) -> Option<i64>;

/// Relies on `chrono::NaiveDateTime::parse_from_str`: parses text against an
/// offset-free format, read as UTC, `None` exactly when it does not parse.
#[verifier::external_body]
pub fn chrono_parse_naive(s: &str, fmt: &str) -> (r: Option<i64>)
    ensures
        r == spec_chrono_parse_naive(s@, fmt@),
{
    match chrono::NaiveDateTime::parse_from_str(s, fmt) {
        Ok(dt) => Some(dt.and_utc().timestamp_millis()),
        Err(_) => None,
    }
}

pub uninterp spec fn spec_time_ts_valid(ts: i64) -> bool;

/// Relies on `time::OffsetDateTime::from_unix_timestamp`: whether the crate
/// accepts the timestamp, a pure function of it.
#[verifier::external_body]
pub fn time_ts_valid(ts: i64) -> (r: bool)
    ensures
        r == spec_time_ts_valid(ts),
{
    time::OffsetDateTime::from_unix_timestamp(ts).is_ok()
}

pub uninterp spec fn spec_time_rfc3339(secs: i64) -> Seq<char>;

/// Relies on `time::OffsetDateTime::from_unix_timestamp` and the crate's
/// RFC 3339 formatter: the text of a UTC instant, a pure function of the
/// seconds.
#[verifier::external_body]
pub fn time_rfc3339_string(secs: i64) -> (r: String)
    requires
        0 <= secs <= MAX_EPOCH_SECS,
    ensures
        r@ == spec_time_rfc3339(secs),
{
    let dt = time::OffsetDateTime::from_unix_timestamp(secs).unwrap();
    dt.format(&time::format_description::well_known::Rfc3339).unwrap_or_default()
}

pub uninterp spec fn spec_time_date_str(secs: i64) -> Seq<char>;

/// Relies on `time::OffsetDateTime::date` and its `Display`: the calendar
/// date of a UTC instant, a pure function of the seconds.
#[verifier::external_body]
pub fn time_date_string(secs: i64) -> (r: String)
    requires
        0 <= secs <= MAX_EPOCH_SECS,
    ensures
        r@ == spec_time_date_str(secs),
{
    let dt = time::OffsetDateTime::from_unix_timestamp(secs).unwrap();
    format!("{}", dt.date())
}

pub uninterp spec fn spec_time_time_str(secs: i64) -> Seq<char>;

/// Relies on `time::OffsetDateTime::time` and its `Display`: the time of day
/// of a UTC instant, a pure function of the seconds.
#[verifier::external_body]
pub fn time_time_string(secs: i64) -> (r: String)
    requires
        0 <= secs <= MAX_EPOCH_SECS,
    ensures
        r@ == spec_time_time_str(secs),
{
    let dt = time::OffsetDateTime::from_unix_timestamp(secs).unwrap();
    format!("{}", dt.time())
}

} // verus!
