//! Ranged number generation.
//!
//! A number specification carries its bounds as fixed-point decimals, the
//! value times one million.  Integer mode truncates each bound toward zero
//! and draws a whole number between them; decimal mode draws a value on the
//! millionth grid between the bounds.  Either way the result lies in
//! `[min, max]`, both ends inclusive.

use vstd::prelude::*;
use crate::value::{JsonValue, JsonV};
use crate::config::GeneratorConfig;
use crate::error::JgdGeneratorError;
use vstd::string::StringExecFns;

verus! {

/// One million: the scale of fixed-point decimals.
pub const DEC_SCALE: i64 = 1000000;

/// Truncation of a fixed-point decimal toward zero, as the integer-mode
/// bounds use it: `3.7` behaves as `3`, `-3.7` as `-3`.
pub open spec fn spec_trunc(m: int) -> int {
    if m >= 0 {
        m / 1000000
    } else {
        -((-m) / 1000000)
    }
}

/// Truncates a fixed-point decimal toward zero.
pub fn trunc_dec(m: i64) -> (r: i64)
    ensures
        r == spec_trunc(m as int),
{
    if m >= 0 {
        m / 1000000
    } else if m == i64::MIN {
        let mag: u64 = 0x8000000000000000u64;
        let q: u64 = mag / 1000000;
        proof {
            assert(0x8000000000000000u64 / 1000000 < 0x8000000000000000u64);
        }
        -(q as i64)
    } else {
        -((-m) / 1000000)
    }
}

/// A specification for numbers drawn from an inclusive range.
#[derive(Debug, Clone)]
pub struct NumberSpec {
    /// Lower bound, inclusive, as the value times one million.
    pub min: i64,
    /// Upper bound, inclusive, as the value times one million.
    pub max: i64,
    /// Whether to produce whole numbers instead of decimals.
    pub integer: bool,
}

impl NumberSpec {
    /// A specification for decimal numbers in `[min, max]`, bounds given as
    /// the value times one million.
    pub fn new_float(min: i64, max: i64) -> (r: NumberSpec)
        ensures
            r.min == min,
            r.max == max,
            !r.integer,
    {
        NumberSpec { min, max, integer: false }
    }

    /// A specification for whole numbers in `[min, max]`, bounds given as
    /// the value times one million.
    pub fn new_integer(min: i64, max: i64) -> (r: NumberSpec)
        ensures
            r.min == min,
            r.max == max,
            r.integer,
    {
        NumberSpec { min, max, integer: true }
    }

    /// Whether the range holds at least one value.
    pub fn is_valid_range(&self) -> (r: bool)
        ensures
            r == (self.min <= self.max),
    {
        self.min <= self.max
    }

    /// How many whole numbers integer mode can produce, zero for an invalid
    /// range.
    pub fn integer_count(&self) -> (r: u64)
        ensures
            self.min <= self.max ==> r == spec_trunc(self.max as int) - spec_trunc(
                self.min as int,
            ) + 1,
            !(self.min <= self.max) ==> r == 0,
    {
        if self.min <= self.max {
            let lo = trunc_dec(self.min);
            let hi = trunc_dec(self.max);
            proof {
                assert(spec_trunc(self.min as int) <= spec_trunc(self.max as int)) by {
                    lemma_trunc_monotone(self.min as int, self.max as int);
                }
            }
            (hi - lo) as u64 + 1
        } else {
            0
        }
    }

    /// Draws one number.
    ///
    /// In integer mode the bounds truncate toward zero and the result is a
    /// whole number between them; in decimal mode the result lies on the
    /// millionth grid between the bounds.  Both bounds are inclusive.  An
    /// empty range is an error.
    pub fn generate(&self, config: &mut GeneratorConfig) -> (r: Result<
        JsonValue,
        JgdGeneratorError,
    >)
        ensures
            final(config).store() == old(config).store(),
            final(config).customs() == old(config).customs(),
            final(config).gen_value == old(config).gen_value,
            final(config).custom_values == old(config).custom_values,
            final(config).fake_keys == old(config).fake_keys,
            final(config).fake_generator == old(config).fake_generator,
            final(config).locale == old(config).locale,
            self.integer ==> ((r is Ok) <==> spec_trunc(self.min as int) <= spec_trunc(
                self.max as int,
            )),
            !self.integer ==> ((r is Ok) <==> self.min <= self.max),
            (self.integer && r is Ok) ==> (r matches Ok(v) && v@ matches JsonV::Int(k)
                && spec_trunc(self.min as int) <= k <= spec_trunc(self.max as int)),
            (!self.integer && r is Ok) ==> (r matches Ok(v) && v@ matches JsonV::Dec(m)
                && self.min <= m <= self.max),
    {
        if self.integer {
            let lo = trunc_dec(self.min);
            let hi = trunc_dec(self.max);
            if lo <= hi {
                let k = self.draw_int(config, lo, hi);
                Ok(JsonValue::Int(k))
            } else {
                Err(JgdGeneratorError::new(String::from_str("The number range is empty")))
            }
        } else {
            if self.min <= self.max {
                let m = self.draw_int(config, self.min, self.max);
                Ok(JsonValue::Dec(m))
            } else {
                Err(JgdGeneratorError::new(String::from_str("The number range is empty")))
            }
        }
    }

    /// Draws a whole number in `[lo, hi]` from the run's stream.
    fn draw_int(&self, config: &mut GeneratorConfig, lo: i64, hi: i64) -> (r: i64)
        requires
            lo <= hi,
        ensures
            lo <= r <= hi,
            final(config).store() == old(config).store(),
            final(config).customs() == old(config).customs(),
            final(config).gen_value == old(config).gen_value,
            final(config).custom_values == old(config).custom_values,
            final(config).fake_keys == old(config).fake_keys,
            final(config).fake_generator == old(config).fake_generator,
            final(config).locale == old(config).locale,
    {
        config.rng.next_i64_in(lo, hi)
    }
}

/// Truncation toward zero keeps order.
proof fn lemma_trunc_monotone(a: int, b: int)
    requires
        a <= b,
    ensures
        spec_trunc(a) <= spec_trunc(b),
{
    if a >= 0 {
        assert(a / 1000000 <= b / 1000000) by (nonlinear_arith)
            requires
                0 <= a <= b,
        ;
    } else if b < 0 {
        assert((-b) / 1000000 <= (-a) / 1000000) by (nonlinear_arith)
            requires
                a <= b < 0,
        ;
    } else {
        assert((-a) / 1000000 >= 0 && b / 1000000 >= 0) by (nonlinear_arith)
            requires
                a < 0 <= b,
        ;
    }
}

} // verus!
