//! Parsed placeholder arguments.
//!
//! The text between parentheses of a placeholder such as `${lorem.words(3..5)}`
//! parses to no argument, one fixed argument, or a two-ended range: split on
//! `..` when present, else on `,`, trimming each part.  Typed accessors read
//! an argument as text, number or timestamp and fall back to a caller default
//! on any parse failure — argument parsing never raises an error.

use vstd::prelude::*;
use crate::strutil::{spec_trim, trim_chars, to_chars, from_chars};
use crate::numfmt::{spec_is_i64, spec_i64_val, parse_i64_str};
use crate::externs::{
    spec_time_ts_valid, time_ts_valid, spec_chrono_parse_utc, chrono_parse_utc,
    spec_chrono_parse_rfc3339, chrono_parse_rfc3339, spec_chrono_parse_fmt, chrono_parse_fmt,
    spec_chrono_parse_naive, chrono_parse_naive,
};

verus! {

/// The mathematical shape of parsed arguments.
pub enum ArgsV {
    Empty,
    Fixed(Seq<char>),
    Range(Seq<char>, Seq<char>),
}

/// Arguments parsed out of a placeholder's parentheses.
pub enum Arguments {
    /// No argument text, or nothing between the parentheses.
    Empty,
    /// A single argument.
    Fixed(String),
    /// A two-ended range, written `a..b` or `a,b`.
    Range(String, String),
}

impl View for Arguments {
    type V = ArgsV;

    open spec fn view(&self) -> ArgsV {
        match self {
            Arguments::Empty => ArgsV::Empty,
            Arguments::Fixed(a) => ArgsV::Fixed(a@),
            Arguments::Range(a, b) => ArgsV::Range(a@, b@),
        }
    }
}

/// The first index where `pat0 pat1` occurs in `s`, `-1` when it never does.
pub open spec fn spec_find2(s: Seq<char>, pat0: char, pat1: char) -> int
    decreases s.len(),
{
    if s.len() < 2 {
        -1
    } else if s[0] == pat0 && s[1] == pat1 {
        0
    } else {
        let r = spec_find2(s.skip(1), pat0, pat1);
        if r == -1 {
            -1
        } else {
            r + 1
        }
    }
}

/// The first index of `c` in `s`, `-1` when it never occurs.
pub open spec fn spec_find1(s: Seq<char>, c: char) -> int
    decreases s.len(),
{
    if s.len() == 0 {
        -1
    } else if s[0] == c {
        0
    } else {
        let r = spec_find1(s.skip(1), c);
        if r == -1 {
            -1
        } else {
            r + 1
        }
    }
}

pub proof fn lemma_find2_range(s: Seq<char>, pat0: char, pat1: char)
    ensures
        -1 <= spec_find2(s, pat0, pat1) <= s.len() - 2 || spec_find2(s, pat0, pat1) == -1,
        spec_find2(s, pat0, pat1) >= 0 ==> {
            &&& spec_find2(s, pat0, pat1) + 2 <= s.len()
            &&& s[spec_find2(s, pat0, pat1)] == pat0
            &&& s[spec_find2(s, pat0, pat1) + 1] == pat1
        },
    decreases s.len(),
{
    if s.len() >= 2 && !(s[0] == pat0 && s[1] == pat1) {
        lemma_find2_range(s.skip(1), pat0, pat1);
    }
}

pub proof fn lemma_find2_first(s: Seq<char>, pat0: char, pat1: char, j: int)
    requires
        0 <= j,
        j + 2 <= s.len(),
        s[j] == pat0,
        s[j + 1] == pat1,
    ensures
        0 <= spec_find2(s, pat0, pat1) <= j,
    decreases s.len(),
{
    if !(s[0] == pat0 && s[1] == pat1) {
        lemma_find2_first(s.skip(1), pat0, pat1, j - 1);
    }
}

pub proof fn lemma_find1_range(s: Seq<char>, c: char)
    ensures
        -1 <= spec_find1(s, c) < s.len(),
        spec_find1(s, c) >= 0 ==> s[spec_find1(s, c)] == c,
    decreases s.len(),
{
    if s.len() > 0 && s[0] != c {
        lemma_find1_range(s.skip(1), c);
    }
}

pub proof fn lemma_find1_first(s: Seq<char>, c: char, j: int)
    requires
        0 <= j < s.len(),
        s[j] == c,
    ensures
        0 <= spec_find1(s, c) <= j,
    decreases s.len(),
{
    if s[0] != c {
        lemma_find1_first(s.skip(1), c, j - 1);
    }
}

/// Finds the first occurrence of the two-character pattern in `v`.
fn find2(v: &[char], pat0: char, pat1: char) -> (r: Option<usize>)
    ensures
        match r {
            Some(i) => spec_find2(v@, pat0, pat1) == i,
            None => spec_find2(v@, pat0, pat1) == -1,
        },
{
    if v.len() < 2 {
        proof {
            lemma_find2_range(v@, pat0, pat1);
        }
        return None;
    }
    let n = v.len();
    let mut i: usize = 0;
    while i <= n - 2
        invariant
            0 <= i <= n - 1,
            n == v@.len(),
            n >= 2,
            forall|j: int| 0 <= j < i ==> !(#[trigger] v@[j] == pat0 && v@[j + 1] == pat1),
        decreases v@.len() - i,
    {
        if v[i] == pat0 && v[i + 1] == pat1 {
            proof {
                lemma_find2_first(v@, pat0, pat1, i as int);
                lemma_find2_range(v@, pat0, pat1);
            }
            return Some(i);
        }
        i = i + 1;
    }
    proof {
        lemma_find2_range(v@, pat0, pat1);
    }
    None
}

/// Finds the first occurrence of `c` in `v`.
fn find1(v: &[char], c: char) -> (r: Option<usize>)
    ensures
        match r {
            Some(i) => spec_find1(v@, c) == i,
            None => spec_find1(v@, c) == -1,
        },
{
    let mut i: usize = 0;
    while i < v.len()
        invariant
            0 <= i <= v@.len(),
            forall|j: int| 0 <= j < i ==> v@[j] != c,
        decreases v@.len() - i,
    {
        if v[i] == c {
            proof {
                lemma_find1_first(v@, c, i as int);
                lemma_find1_range(v@, c);
            }
            return Some(i);
        }
        i = i + 1;
    }
    proof {
        lemma_find1_range(v@, c);
    }
    None
}

/// Classifies the first two parts of a split argument list.
pub open spec fn spec_classify2(p0: Seq<char>, p1: Seq<char>) -> ArgsV {
    if p0.len() == 0 && p1.len() == 0 {
        ArgsV::Empty
    } else if p1.len() == 0 {
        ArgsV::Fixed(p0)
    } else {
        ArgsV::Range(p0, p1)
    }
}

/// What parenthesised argument text parses to.
///
/// Text not wrapped in parentheses carries no arguments.  Inside them, the
/// text splits on `..` when present, else on `,`; only the first two parts
/// matter.  Each part is trimmed of surrounding whitespace.
pub open spec fn spec_arguments(s: Seq<char>) -> ArgsV {
    if !(s.len() >= 2 && s[0] == '(' && s[s.len() - 1] == ')') {
        ArgsV::Empty
    } else {
        let inner = s.subrange(1, s.len() - 1);
        let d = spec_find2(inner, '.', '.');
        let c = spec_find1(inner, ',');
        if d >= 0 {
            let p0 = spec_trim(inner.take(d));
            let rest = inner.skip(d + 2);
            let d2 = spec_find2(rest, '.', '.');
            let p1 = spec_trim(
                if d2 >= 0 {
                    rest.take(d2)
                } else {
                    rest
                },
            );
            spec_classify2(p0, p1)
        } else if c >= 0 {
            let p0 = spec_trim(inner.take(c));
            let rest = inner.skip(c + 1);
            let c2 = spec_find1(rest, ',');
            let p1 = spec_trim(
                if c2 >= 0 {
                    rest.take(c2)
                } else {
                    rest
                },
            );
            spec_classify2(p0, p1)
        } else {
            let p = spec_trim(inner);
            if p.len() > 0 {
                ArgsV::Fixed(p)
            } else {
                ArgsV::Empty
            }
        }
    }
}

impl From<&str> for Arguments {
    /// Parses argument text, as [`Arguments::parse`] does.
    fn from(value: &str) -> (r: Arguments) {
        Arguments::parse(value)
    }
}

impl vstd::std_specs::convert::FromSpecImpl<&str> for Arguments {
    open spec fn obeys_from_spec() -> bool {
        false
    }

    open spec fn from_spec(v: &str) -> Arguments {
        choose|a: Arguments| a@ == spec_arguments(v@)
    }
}

impl Arguments {
    /// Parses argument text; see [`spec_arguments`] for the grammar.
    pub fn parse(value: &str) -> (r: Arguments)
        ensures
            r@ == spec_arguments(value@),
    {
        let v = to_chars(value);
        let n = v.len();
        if !(n >= 2 && v[0] == '(' && v[n - 1] == ')') {
            return Arguments::Empty;
        }
        let inner = crate::strutil::chars_slice(v.as_slice(), 1, n - 1);
        proof {
            assert(inner@ =~= value@.subrange(1, value@.len() - 1));
        }
        if let Some(d) = find2(inner.as_slice(), '.', '.') {
            proof {
                lemma_find2_range(inner@, '.', '.');
            }
            let head = crate::strutil::chars_slice(inner.as_slice(), 0, d);
            proof {
                assert(head@ =~= inner@.take(d as int));
            }
            let p0 = trim_chars(head.as_slice());
            let rest = crate::strutil::chars_slice(inner.as_slice(), d + 2, inner.len());
            proof {
                assert(rest@ =~= inner@.skip(d + 2));
            }
            let tail = if let Some(d2) = find2(rest.as_slice(), '.', '.') {
                proof {
                    lemma_find2_range(rest@, '.', '.');
                }
                let t = crate::strutil::chars_slice(rest.as_slice(), 0, d2);
                proof {
                    assert(t@ =~= rest@.take(d2 as int));
                }
                t
            } else {
                rest
            };
            let p1 = trim_chars(tail.as_slice());
            Self::classify2(p0, p1)
        } else if let Some(c) = find1(inner.as_slice(), ',') {
            proof {
                lemma_find1_range(inner@, ',');
            }
            let head = crate::strutil::chars_slice(inner.as_slice(), 0, c);
            proof {
                assert(head@ =~= inner@.take(c as int));
            }
            let p0 = trim_chars(head.as_slice());
            let rest = crate::strutil::chars_slice(inner.as_slice(), c + 1, inner.len());
            proof {
                assert(rest@ =~= inner@.skip(c + 1));
            }
            let tail = if let Some(c2) = find1(rest.as_slice(), ',') {
                proof {
                    lemma_find1_range(rest@, ',');
                }
                let t = crate::strutil::chars_slice(rest.as_slice(), 0, c2);
                proof {
                    assert(t@ =~= rest@.take(c2 as int));
                }
                t
            } else {
                rest
            };
            let p1 = trim_chars(tail.as_slice());
            Self::classify2(p0, p1)
        } else {
            let p = trim_chars(inner.as_slice());
            if p.len() > 0 {
                Arguments::Fixed(from_chars(p.as_slice()))
            } else {
                Arguments::Empty
            }
        }
    }

    /// Builds the variant the first two parts of a split call for.
    fn classify2(p0: Vec<char>, p1: Vec<char>) -> (r: Arguments)
        ensures
            r@ == spec_classify2(p0@, p1@),
    {
        if p0.len() == 0 && p1.len() == 0 {
            Arguments::Empty
        } else if p1.len() == 0 {
            Arguments::Fixed(from_chars(p0.as_slice()))
        } else {
            Arguments::Range(from_chars(p0.as_slice()), from_chars(p1.as_slice()))
        }
    }

    /// The first argument as text, or the default when there is none.
    pub fn get_string<'a>(&'a self, default_value: &'a str) -> (r: &'a str)
        ensures
            r@ == match self@ {
                ArgsV::Empty => default_value@,
                ArgsV::Fixed(a) => a,
                ArgsV::Range(a, _) => a,
            },
    {
        match self {
            Arguments::Empty => default_value,
            Arguments::Fixed(arg) => arg.as_str(),
            Arguments::Range(arg, _) => arg.as_str(),
        }
    }

    /// Both ends as text, defaults filling what the arguments do not give.
    pub fn get_string_tuple<'a>(&'a self, default_start: &'a str, default_end: &'a str) -> (r: (
        &'a str,
        &'a str,
    ))
        ensures
            r.0@ == match self@ {
                ArgsV::Empty => default_start@,
                ArgsV::Fixed(a) => a,
                ArgsV::Range(a, _) => a,
            },
            r.1@ == match self@ {
                ArgsV::Empty => default_end@,
                ArgsV::Fixed(_) => default_end@,
                ArgsV::Range(_, b) => b,
            },
    {
        match self {
            Arguments::Empty => (default_start, default_end),
            Arguments::Fixed(arg) => (arg.as_str(), default_end),
            Arguments::Range(a, b) => (a.as_str(), b.as_str()),
        }
    }

    /// What parsing one argument as a number yields: its value, or the default.
    pub open spec fn spec_number_of(a: Seq<char>, default_value: int) -> int {
        if spec_is_i64(a) {
            spec_i64_val(a)
        } else {
            default_value
        }
    }

    /// Parses text as a number, the default standing in on failure.
    pub fn parse_number(arg: &str, default_value: i64) -> (r: i64)
        ensures
            r == Self::spec_number_of(arg@, default_value as int),
    {
        match parse_i64_str(arg) {
            Some(v) => v,
            None => default_value,
        }
    }

    /// The first argument as a number, or the default.
    pub fn get_number(&self, default_value: i64) -> (r: i64)
        ensures
            r == match self@ {
                ArgsV::Empty => default_value as int,
                ArgsV::Fixed(a) => Self::spec_number_of(a, default_value as int),
                ArgsV::Range(a, _) => Self::spec_number_of(a, default_value as int),
            },
    {
        match self {
            Arguments::Empty => default_value,
            Arguments::Fixed(arg) => Self::parse_number(arg.as_str(), default_value),
            Arguments::Range(arg, _) => Self::parse_number(arg.as_str(), default_value),
        }
    }

    /// Both ends as numbers, defaults filling what the arguments do not give.
    pub fn get_number_range(&self, default_start: i64, default_end: i64) -> (r: core::ops::Range<
        i64,
    >)
        ensures
            r.start == match self@ {
                ArgsV::Empty => default_start as int,
                ArgsV::Fixed(a) => Self::spec_number_of(a, default_start as int),
                ArgsV::Range(a, _) => Self::spec_number_of(a, default_start as int),
            },
            r.end == match self@ {
                ArgsV::Empty => default_end as int,
                ArgsV::Fixed(_) => default_end as int,
                ArgsV::Range(_, b) => Self::spec_number_of(b, default_end as int),
            },
    {
        match self {
            Arguments::Empty => default_start..default_end,
            Arguments::Fixed(arg) => Self::parse_number(arg.as_str(), default_start)..default_end,
            Arguments::Range(a, b) => Self::parse_number(a.as_str(), default_start)..Self::parse_number(
                b.as_str(),
                default_end,
            ),
        }
    }

    /// What parsing one argument as a Unix timestamp yields.
    pub open spec fn spec_time_of(a: Seq<char>, default_value: int) -> int {
        if spec_is_i64(a) && spec_time_ts_valid(spec_i64_val(a) as i64) {
            spec_i64_val(a)
        } else {
            default_value
        }
    }

    /// Parses text as a Unix timestamp in seconds, the default standing in on
    /// failure or on a timestamp the `time` crate refuses.
    pub fn parse_time(arg: &str, default_value: i64) -> (r: i64)
        ensures
            r == Self::spec_time_of(arg@, default_value as int),
    {
        match parse_i64_str(arg) {
            Some(ts) => {
                if time_ts_valid(ts) {
                    ts
                } else {
                    default_value
                }
            },
            None => default_value,
        }
    }

    /// The first argument as a Unix timestamp in seconds, or the default.
    pub fn get_time(&self, default_value: i64) -> (r: i64)
        ensures
            r == match self@ {
                ArgsV::Empty => default_value as int,
                ArgsV::Fixed(a) => Self::spec_time_of(a, default_value as int),
                ArgsV::Range(a, _) => Self::spec_time_of(a, default_value as int),
            },
    {
        match self {
            Arguments::Empty => default_value,
            Arguments::Fixed(arg) => Self::parse_time(arg.as_str(), default_value),
            Arguments::Range(arg, _) => Self::parse_time(arg.as_str(), default_value),
        }
    }

    /// Both ends as Unix timestamps, defaults filling the rest.
    pub fn get_time_range(&self, default_start: i64, default_end: i64) -> (r: (i64, i64))
        ensures
            r.0 == match self@ {
                ArgsV::Empty => default_start as int,
                ArgsV::Fixed(a) => Self::spec_time_of(a, default_start as int),
                ArgsV::Range(a, _) => Self::spec_time_of(a, default_start as int),
            },
            r.1 == match self@ {
                ArgsV::Empty => default_end as int,
                ArgsV::Fixed(_) => default_end as int,
                ArgsV::Range(_, b) => Self::spec_time_of(b, default_end as int),
            },
    {
        match self {
            Arguments::Empty => (default_start, default_end),
            Arguments::Fixed(arg) => (Self::parse_time(arg.as_str(), default_start), default_end),
            Arguments::Range(a, b) => (
                Self::parse_time(a.as_str(), default_start),
                Self::parse_time(b.as_str(), default_end),
            ),
        }
    }

    /// What parsing one argument as a calendar instant yields, in Unix
    /// milliseconds: the first of several formats that accepts the text, or
    /// the default.
    pub open spec fn spec_datetime_of(a: Seq<char>, default_value: int) -> int {
        if spec_chrono_parse_utc(a) is Some {
            spec_chrono_parse_utc(a)->0 as int
        } else if spec_chrono_parse_rfc3339(a) is Some {
            spec_chrono_parse_rfc3339(a)->0 as int
        } else if spec_chrono_parse_fmt(a, "%Y-%m-%dT%H:%M:%S%:z"@) is Some {
            spec_chrono_parse_fmt(a, "%Y-%m-%dT%H:%M:%S%:z"@)->0 as int
        } else if spec_chrono_parse_fmt(a, "%Y-%m-%dT%H:%M:%SZ"@) is Some {
            spec_chrono_parse_fmt(a, "%Y-%m-%dT%H:%M:%SZ"@)->0 as int
        } else if spec_chrono_parse_fmt(a, "%Y-%m-%dT%H:%M:%S%.3f%:z"@) is Some {
            spec_chrono_parse_fmt(a, "%Y-%m-%dT%H:%M:%S%.3f%:z"@)->0 as int
        } else if spec_chrono_parse_fmt(a, "%Y-%m-%dT%H:%M:%S%.3fZ"@) is Some {
            spec_chrono_parse_fmt(a, "%Y-%m-%dT%H:%M:%S%.3fZ"@)->0 as int
        } else if spec_chrono_parse_naive(a, "%Y-%m-%d %H:%M:%S"@) is Some {
            spec_chrono_parse_naive(a, "%Y-%m-%d %H:%M:%S"@)->0 as int
        } else if spec_chrono_parse_naive(a, "%Y-%m-%dT%H:%M:%S"@) is Some {
            spec_chrono_parse_naive(a, "%Y-%m-%dT%H:%M:%S"@)->0 as int
        } else if spec_chrono_parse_naive(a, "%Y-%m-%d %H:%M:%S%.3f"@) is Some {
            spec_chrono_parse_naive(a, "%Y-%m-%d %H:%M:%S%.3f"@)->0 as int
        } else if spec_chrono_parse_naive(a, "%Y-%m-%dT%H:%M:%S%.3f"@) is Some {
            spec_chrono_parse_naive(a, "%Y-%m-%dT%H:%M:%S%.3f"@)->0 as int
        } else {
            default_value
        }
    }

    /// Parses text as a calendar instant in Unix milliseconds, trying ISO
    /// 8601 with offset, RFC 3339, common offset formats, then naive formats
    /// read as UTC; the default stands in when none accepts.
    pub fn parse_datetime(arg: &str, default_value: i64) -> (r: i64)
        ensures
            r == Self::spec_datetime_of(arg@, default_value as int),
    {
        if let Some(v) = chrono_parse_utc(arg) {
            return v;
        }
        if let Some(v) = chrono_parse_rfc3339(arg) {
            return v;
        }
        if let Some(v) = chrono_parse_fmt(arg, "%Y-%m-%dT%H:%M:%S%:z") {
            return v;
        }
        if let Some(v) = chrono_parse_fmt(arg, "%Y-%m-%dT%H:%M:%SZ") {
            return v;
        }
        if let Some(v) = chrono_parse_fmt(arg, "%Y-%m-%dT%H:%M:%S%.3f%:z") {
            return v;
        }
        if let Some(v) = chrono_parse_fmt(arg, "%Y-%m-%dT%H:%M:%S%.3fZ") {
            return v;
        }
        if let Some(v) = chrono_parse_naive(arg, "%Y-%m-%d %H:%M:%S") {
            return v;
        }
        if let Some(v) = chrono_parse_naive(arg, "%Y-%m-%dT%H:%M:%S") {
            return v;
        }
        if let Some(v) = chrono_parse_naive(arg, "%Y-%m-%d %H:%M:%S%.3f") {
            return v;
        }
        if let Some(v) = chrono_parse_naive(arg, "%Y-%m-%dT%H:%M:%S%.3f") {
            return v;
        }
        default_value
    }

    /// The first argument as a calendar instant, or the default.
    pub fn get_datetime(&self, default_value: i64) -> (r: i64)
        ensures
            r == match self@ {
                ArgsV::Empty => default_value as int,
                ArgsV::Fixed(a) => Self::spec_datetime_of(a, default_value as int),
                ArgsV::Range(a, _) => Self::spec_datetime_of(a, default_value as int),
            },
    {
        match self {
            Arguments::Empty => default_value,
            Arguments::Fixed(arg) => Self::parse_datetime(arg.as_str(), default_value),
            Arguments::Range(arg, _) => Self::parse_datetime(arg.as_str(), default_value),
        }
    }

    /// Both ends as calendar instants, defaults filling the rest.
    pub fn get_datetime_range(&self, default_start: i64, default_end: i64) -> (r: (i64, i64))
        ensures
            r.0 == match self@ {
                ArgsV::Empty => default_start as int,
                ArgsV::Fixed(a) => Self::spec_datetime_of(a, default_start as int),
                ArgsV::Range(a, _) => Self::spec_datetime_of(a, default_start as int),
            },
            r.1 == match self@ {
                ArgsV::Empty => default_end as int,
                ArgsV::Fixed(_) => default_end as int,
                ArgsV::Range(_, b) => Self::spec_datetime_of(b, default_end as int),
            },
    {
        match self {
            Arguments::Empty => (default_start, default_end),
            Arguments::Fixed(arg) => (
                Self::parse_datetime(arg.as_str(), default_start),
                default_end,
            ),
            Arguments::Range(a, b) => (
                Self::parse_datetime(a.as_str(), default_start),
                Self::parse_datetime(b.as_str(), default_end),
            ),
        }
    }
}

} // verus!
