//! Decimal formatting and parsing of integers, with exact specifications.
//!
//! `spec_u64_str` / `spec_i64_str` define the canonical decimal text of a
//! number; the executable functions produce exactly that text.  Parsing is the
//! inverse direction: a string of (optionally signed) decimal digits within
//! range parses to its value, anything else is rejected.

use vstd::prelude::*;
use crate::strutil::from_chars;

verus! {

/// The character for one decimal digit.
pub open spec fn spec_digit_char(d: int) -> char {
    if d == 0 { '0' } else if d == 1 { '1' } else if d == 2 { '2' } else if d == 3 { '3' }
    else if d == 4 { '4' } else if d == 5 { '5' } else if d == 6 { '6' } else if d == 7 { '7' }
    else if d == 8 { '8' } else if d == 9 { '9' } else { ' ' }
}

/// The numeric value of one digit character, `-1` for any other character.
pub open spec fn spec_digit_of(c: char) -> int {
    if c == '0' { 0 } else if c == '1' { 1 } else if c == '2' { 2 } else if c == '3' { 3 }
    else if c == '4' { 4 } else if c == '5' { 5 } else if c == '6' { 6 } else if c == '7' { 7 }
    else if c == '8' { 8 } else if c == '9' { 9 } else { -1 }
}

/// The executable form of `spec_digit_of`.
pub fn digit_of(c: char) -> (r: i32)
    ensures
        r == spec_digit_of(c),
{
    if c == '0' { 0 } else if c == '1' { 1 } else if c == '2' { 2 } else if c == '3' { 3 }
    else if c == '4' { 4 } else if c == '5' { 5 } else if c == '6' { 6 } else if c == '7' { 7 }
    else if c == '8' { 8 } else if c == '9' { 9 } else { -1 }
}

/// The executable form of `spec_digit_char`; usable for digits only.
pub fn digit_char(d: u64) -> (r: char)
    requires
        d < 10,
    ensures
        r == spec_digit_char(d as int),
{
    if d == 0 { '0' } else if d == 1 { '1' } else if d == 2 { '2' } else if d == 3 { '3' }
    else if d == 4 { '4' } else if d == 5 { '5' } else if d == 6 { '6' } else if d == 7 { '7' }
    else if d == 8 { '8' } else { '9' }
}

/// Decimal digits of a positive number, most significant first.
pub open spec fn spec_digits_pos(n: int) -> Seq<char>
    decreases n,
{
    if n <= 0 {
        Seq::empty()
    } else if n < 10 {
        seq![spec_digit_char(n)]
    } else {
        spec_digits_pos(n / 10).push(spec_digit_char(n % 10))
    }
}

/// The decimal text of an unsigned number.
pub open spec fn spec_u64_str(n: int) -> Seq<char> {
    if n == 0 {
        seq!['0']
    } else {
        spec_digits_pos(n)
    }
}

/// The decimal text of a signed number.
pub open spec fn spec_i64_str(i: int) -> Seq<char> {
    if i < 0 {
        seq!['-'] + spec_u64_str(-i)
    } else {
        spec_u64_str(i)
    }
}

/// The decimal text of `n`.
pub fn u64_to_string(n: u64) -> (r: String)
    ensures
        r@ == spec_u64_str(n as int),
{
    if n == 0 {
        let mut v: Vec<char> = Vec::new();
        v.push('0');
        proof {
            assert(v@ =~= spec_u64_str(0));
        }
        return from_chars(v.as_slice());
    }
    let mut acc: Vec<char> = Vec::new();
    let mut m: u64 = n;
    while m > 0
        invariant
            0 <= m,
            m > 0 ==> spec_digits_pos(n as int) == spec_digits_pos(m as int) + acc@.reverse(),
            m == 0 ==> spec_digits_pos(n as int) == acc@.reverse(),
        decreases m,
    {
        let d: u64 = m % 10;
        let c: char = digit_char(d);
        let ghost old_acc = acc@;
        let ghost old_m = m as int;
        acc.push(c);
        m = m / 10;
        proof {
            assert(acc@.reverse() =~= seq![c] + old_acc.reverse());
            assert(c == spec_digit_char(old_m % 10));
            if old_m < 10 {
                assert(spec_digits_pos(old_m) =~= seq![spec_digit_char(old_m)]);
                assert(old_m % 10 == old_m);
                assert(spec_digits_pos(old_m) + old_acc.reverse() =~= acc@.reverse());
            } else {
                assert(spec_digits_pos(old_m) == spec_digits_pos(old_m / 10).push(
                    spec_digit_char(old_m % 10),
                ));
                assert(spec_digits_pos(old_m / 10).push(spec_digit_char(old_m % 10))
                    + old_acc.reverse() =~= spec_digits_pos(old_m / 10) + acc@.reverse());
            }
        }
    }
    let mut out: Vec<char> = Vec::new();
    let mut i: usize = acc.len();
    while i > 0
        invariant
            0 <= i <= acc@.len(),
            out@ == acc@.subrange(i as int, acc@.len() as int).reverse(),
        decreases i,
    {
        i = i - 1;
        out.push(acc[i]);
        proof {
            assert(out@ =~= acc@.subrange(i as int, acc@.len() as int).reverse());
        }
    }
    proof {
        assert(acc@.subrange(0, acc@.len() as int) =~= acc@);
        assert(out@ =~= spec_digits_pos(n as int));
    }
    from_chars(out.as_slice())
}

/// The decimal text of `i`, with a leading minus sign when negative.
pub fn i64_to_string(i: i64) -> (r: String)
    ensures
        r@ == spec_i64_str(i as int),
{
    if i >= 0 {
        u64_to_string(i as u64)
    } else {
        let mag: u64 = if i == i64::MIN {
            0x8000000000000000u64
        } else {
            (-i) as u64
        };
        let tail = u64_to_string(mag);
        let mut out = String::new();
        crate::strutil::push_char(&mut out, '-');
        let mut outv = crate::strutil::to_chars(out.as_str());
        let tailv = crate::strutil::to_chars(tail.as_str());
        let mut k: usize = 0;
        while k < tailv.len()
            invariant
                0 <= k <= tailv@.len(),
                outv@ == seq!['-'] + tailv@.subrange(0, k as int),
            decreases tailv@.len() - k,
        {
            outv.push(tailv[k]);
            proof {
                assert(outv@ =~= seq!['-'] + tailv@.subrange(0, k + 1 as int));
            }
            k = k + 1;
        }
        proof {
            assert(tailv@.subrange(0, tailv@.len() as int) =~= tailv@);
            assert(outv@ =~= spec_i64_str(i as int));
        }
        from_chars(outv.as_slice())
    }
}

/// Whether `c` is a decimal digit.
pub open spec fn spec_is_digit(c: char) -> bool {
    spec_digit_of(c) >= 0
}

/// The numeric value of a digit string, most significant first.
pub open spec fn spec_digits_val(s: Seq<char>) -> int
    decreases s.len(),
{
    if s.len() == 0 {
        0
    } else {
        spec_digits_val(s.drop_last()) * 10 + spec_digit_of(s.last())
    }
}

/// Whether every character of `s` is a decimal digit and `s` is non-empty.
pub open spec fn spec_all_digits(s: Seq<char>) -> bool {
    s.len() > 0 && forall|j: int| 0 <= j < s.len() ==> spec_is_digit(#[trigger] s[j])
}

/// The digit part of a signed decimal literal: what follows an optional sign.
pub open spec fn spec_int_digits(s: Seq<char>) -> Seq<char> {
    if s.len() > 0 && (s[0] == '-' || s[0] == '+') {
        s.skip(1)
    } else {
        s
    }
}

/// Whether `s` is a valid `i64` decimal literal, as `str::parse` accepts it.
pub open spec fn spec_is_i64(s: Seq<char>) -> bool {
    let digits = spec_int_digits(s);
    &&& spec_all_digits(digits)
    &&& (if s.len() > 0 && s[0] == '-' {
        spec_digits_val(digits) <= 0x8000000000000000
    } else {
        spec_digits_val(digits) <= 0x7fffffffffffffff
    })
}

/// The value of a valid `i64` decimal literal.
pub open spec fn spec_i64_val(s: Seq<char>) -> int {
    if s.len() > 0 && s[0] == '-' {
        -spec_digits_val(spec_int_digits(s))
    } else {
        spec_digits_val(spec_int_digits(s))
    }
}

proof fn lemma_digits_val_nonneg(s: Seq<char>)
    requires
        forall|j: int| 0 <= j < s.len() ==> spec_is_digit(#[trigger] s[j]),
    ensures
        spec_digits_val(s) >= 0,
    decreases s.len(),
{
    if s.len() > 0 {
        lemma_digits_val_nonneg(s.drop_last());
    }
}

/// Parses decimal digits; `None` when a character is no digit or the value
/// exceeds `u64`.
fn parse_digits_u64(v: &[char]) -> (r: Option<u64>)
    requires
        v@.len() > 0,
    ensures
        match r {
            Some(n) => spec_all_digits(v@) && n == spec_digits_val(v@),
            None => !(spec_all_digits(v@) && spec_digits_val(v@) <= u64::MAX),
        },
{
    let mut acc: u64 = 0;
    let mut i: usize = 0;
    while i < v.len()
        invariant
            0 <= i <= v@.len(),
            forall|j: int| 0 <= j < i ==> spec_is_digit(#[trigger] v@[j]),
            acc == spec_digits_val(v@.subrange(0, i as int)),
        decreases v@.len() - i,
    {
        let c = v[i];
        let dv = digit_of(c);
        if dv < 0 {
            proof {
                assert(!spec_is_digit(v@[i as int]));
            }
            return None;
        }
        let d: u64 = dv as u64;
        let ghost pre = v@.subrange(0, i as int);
        proof {
            assert(v@.subrange(0, i + 1 as int).drop_last() =~= pre);
            assert(v@.subrange(0, i + 1 as int).last() == v@[i as int]);
            assert(spec_is_digit(v@[i as int]));
            assert(spec_digit_of(v@[i as int]) == d);
        }
        if acc > 0xFFFFFFFFFFFFFFFFu64 / 10 {
            proof {
                assert(acc * 10 + d > u64::MAX) by (nonlinear_arith)
                    requires
                        acc > 0xFFFFFFFFFFFFFFFFu64 / 10,
                        d >= 0,
                ;
                lemma_digits_overflow(v@, i as int);
            }
            return None;
        }
        let acc10: u64 = acc * 10;
        if d > u64::MAX - acc10 {
            proof {
                lemma_digits_overflow(v@, i as int);
            }
            return None;
        }
        acc = acc10 + d;
        i = i + 1;
    }
    proof {
        assert(v@.subrange(0, v@.len() as int) =~= v@);
    }
    Some(acc)
}

/// A prefix value already past the limit keeps the whole string past it.
proof fn lemma_digits_monotone(s: Seq<char>, i: int)
    requires
        0 <= i <= s.len(),
        forall|j: int| 0 <= j < s.len() ==> spec_is_digit(#[trigger] s[j]),
    ensures
        spec_digits_val(s) >= spec_digits_val(s.subrange(0, i)),
    decreases s.len() - i,
{
    if i < s.len() {
        lemma_digits_monotone(s, i + 1);
        let a = s.subrange(0, i);
        let b = s.subrange(0, i + 1);
        assert(b.drop_last() =~= a);
        lemma_digits_val_nonneg(a);
        assert(spec_digits_val(b) == spec_digits_val(a) * 10 + spec_digit_of(s[i]));
        assert(spec_digits_val(a) * 10 >= spec_digits_val(a)) by (nonlinear_arith)
            requires
                spec_digits_val(a) >= 0,
        ;
    } else {
        assert(s.subrange(0, i) =~= s);
    }
}

/// Overflow while accumulating digit `i` means the full value exceeds `u64`.
proof fn lemma_digits_overflow(s: Seq<char>, i: int)
    requires
        0 <= i < s.len(),
        forall|j: int| 0 <= j <= i ==> spec_is_digit(#[trigger] s[j]),
        spec_digits_val(s.subrange(0, i)) * 10 + spec_digit_of(s[i]) > u64::MAX,
    ensures
        !(spec_all_digits(s) && spec_digits_val(s) <= u64::MAX),
{
    if spec_all_digits(s) {
        lemma_digits_monotone(s, i + 1);
        assert(s.subrange(0, i + 1).drop_last() =~= s.subrange(0, i));
        assert(spec_digits_val(s.subrange(0, i + 1)) == spec_digits_val(s.subrange(0, i)) * 10
            + spec_digit_of(s[i]));
    }
}

/// Parses a signed decimal literal exactly as `str::parse::<i64>` would.
pub fn parse_i64_chars(v: &[char]) -> (r: Option<i64>)
    ensures
        match r {
            Some(n) => spec_is_i64(v@) && n == spec_i64_val(v@),
            None => !spec_is_i64(v@),
        },
{
    let neg: bool;
    let start: usize;
    if v.len() > 0 && (v[0] == '-' || v[0] == '+') {
        neg = v[0] == '-';
        start = 1;
    } else {
        neg = false;
        start = 0;
    }
    if v.len() == start {
        return None;
    }
    let digits = crate::strutil::chars_slice(v, start, v.len());
    proof {
        assert(digits@ =~= spec_int_digits(v@));
    }
    let parsed = parse_digits_u64(digits.as_slice());
    match parsed {
        None => {
            proof {
                if spec_is_i64(v@) {
                    assert(spec_digits_val(spec_int_digits(v@)) <= u64::MAX);
                }
            }
            None
        },
        Some(mag) => {
            if neg {
                if mag > 0x8000000000000000u64 {
                    return None;
                }
                if mag == 0x8000000000000000u64 {
                    return Some(i64::MIN);
                }
                Some(-(mag as i64))
            } else {
                if mag > 0x7fffffffffffffffu64 {
                    return None;
                }
                Some(mag as i64)
            }
        },
    }
}

/// Parses the characters of a string slice as an `i64`.
pub fn parse_i64_str(s: &str) -> (r: Option<i64>)
    ensures
        match r {
            Some(n) => spec_is_i64(s@) && n == spec_i64_val(s@),
            None => !spec_is_i64(s@),
        },
{
    let v = crate::strutil::to_chars(s);
    parse_i64_chars(v.as_slice())
}

} // verus!
