//! Deterministic pseudo-random number generation.
//!
//! Every random choice of the generation engine is drawn from a [`Prng`], a
//! splitmix64 generator.  The whole stream is a mathematical function of the
//! seed, which is what makes seeded generation reproducible: the contracts
//! below pin each draw to a spec-level function of the previous state.

use vstd::prelude::*;
use vstd::wrapping::u64_specs;

verus! {

/// The splitmix64 state advances by a fixed odd increment each draw.
pub open spec fn spec_step(s: u64) -> u64 {
    u64_specs::wrapping_add(s, 0x9E3779B97F4A7C15)
}

/// The splitmix64 output function: a bijective mixing of the state.
pub open spec fn spec_mix(s: u64) -> u64 {
    let z1 = u64_specs::wrapping_mul(s ^ (s >> 30), 0xBF58476D1CE4E5B9);
    let z2 = u64_specs::wrapping_mul(z1 ^ (z1 >> 27), 0x94D049BB133111EB);
    z2 ^ (z2 >> 31)
}

/// The value produced by one draw from state `s`.
pub open spec fn spec_next(s: u64) -> u64 {
    spec_mix(spec_step(s))
}

/// How many values below the acceptance bound a raw draw may take when the
/// target range holds `m` values: the largest multiple of `m` that the raw
/// word range can hold.  A raw draw below the bound reduces uniformly.
pub open spec fn spec_accept_bound(m: int) -> int {
    0x10000000000000000 - (((0xffffffffffffffff as int % m) + 1) % m)
}

/// The value a bounded draw yields from state `s` over `[lo, hi]`, with
/// `fuel` rejection rounds left: a raw draw below the acceptance bound
/// reduces by remainder; one above it is redrawn, until the fuel runs out.
pub open spec fn spec_next_in_fuel(s: u64, lo: u64, hi: u64, fuel: nat) -> int
    decreases fuel,
{
    let x = spec_next(s) as int;
    let m = hi - lo + 1;
    if lo == 0 && hi == u64::MAX {
        x
    } else if fuel == 0 || x < spec_accept_bound(m) {
        lo + (x % m)
    } else {
        spec_next_in_fuel(spec_step(s), lo, hi, (fuel - 1) as nat)
    }
}

/// The state a bounded draw leaves behind, under the same rejection rounds.
pub open spec fn spec_state_in_fuel(s: u64, lo: u64, hi: u64, fuel: nat) -> u64
    decreases fuel,
{
    let x = spec_next(s) as int;
    let m = hi - lo + 1;
    if lo == 0 && hi == u64::MAX {
        spec_step(s)
    } else if fuel == 0 || x < spec_accept_bound(m) {
        spec_step(s)
    } else {
        spec_state_in_fuel(spec_step(s), lo, hi, (fuel - 1) as nat)
    }
}

/// The value one bounded draw from state `s` yields over `[lo, hi]`.
pub open spec fn spec_next_in(s: u64, lo: u64, hi: u64) -> int {
    spec_next_in_fuel(s, lo, hi, 7)
}

/// The state one bounded draw from state `s` leaves behind.
pub open spec fn spec_state_in(s: u64, lo: u64, hi: u64) -> u64 {
    spec_state_in_fuel(s, lo, hi, 7)
}

/// A seeded pseudo-random number generator.
///
/// Two generators seeded alike produce the same stream: `next_u64` both
/// advances the state and returns a value that are functions of the previous
/// state alone.
#[derive(Clone, Copy, Debug)]
pub struct Prng {
    pub state: u64,
}

impl Prng {
    /// A generator whose whole stream is determined by `seed`.
    pub fn seed_from_u64(seed: u64) -> (r: Prng)
        ensures
            r.state == seed,
    {
        Prng { state: seed }
    }

    /// Draws one value; state and result are functions of the old state.
    pub fn next_u64(&mut self) -> (r: u64)
        ensures
            final(self).state == spec_step(old(self).state),
            r == spec_next(old(self).state),
    {
        self.state = self.state.wrapping_add(0x9E3779B97F4A7C15);
        let z0: u64 = self.state;
        let z1: u64 = (z0 ^ (z0 >> 30)).wrapping_mul(0xBF58476D1CE4E5B9);
        let z2: u64 = (z1 ^ (z1 >> 27)).wrapping_mul(0x94D049BB133111EB);
        z2 ^ (z2 >> 31)
    }

    /// Draws a value in `[lo, hi]`, both bounds inclusive; which one, and the
    /// state left behind, are functions of the state and the bounds.  Raw
    /// draws above the acceptance bound are rejected and redrawn, so the
    /// result is uniform over the range up to a vanishing bias after the
    /// rejection rounds run out.
    pub fn next_u64_in(&mut self, lo: u64, hi: u64) -> (r: u64)
        requires
            lo <= hi,
        ensures
            lo <= r <= hi,
            r == spec_next_in(old(self).state, lo, hi),
            final(self).state == spec_state_in(old(self).state, lo, hi),
    {
        let span: u64 = hi - lo;
        if span == u64::MAX {
            let x = self.next_u64();
            return x;
        }
        let m: u64 = span + 1;
        let rem: u64 = ((u64::MAX % m) + 1) % m;
        let ghost s0 = self.state;
        let mut fuel: u64 = 7;
        loop
            invariant
                lo <= hi,
                span == hi - lo,
                span < u64::MAX,
                m == span + 1,
                rem as int == (((u64::MAX as int) % (m as int)) + 1) % (m as int),
                0 <= fuel <= 7,
                spec_next_in_fuel(s0, lo, hi, 7) == spec_next_in_fuel(
                    self.state,
                    lo,
                    hi,
                    fuel as nat,
                ),
                spec_state_in_fuel(s0, lo, hi, 7) == spec_state_in_fuel(
                    self.state,
                    lo,
                    hi,
                    fuel as nat,
                ),
                s0 == old(self).state,
            decreases fuel,
        {
            let x = self.next_u64();
            proof {
                assert(rem as int == (((0xffffffffffffffff as int % m as int) + 1) % m as int));
                assert((x < spec_accept_bound(m as int)) == (x <= u64::MAX - rem));
            }
            if fuel == 0 || x <= u64::MAX - rem {
                return lo + x % m;
            }
            fuel = fuel - 1;
        }
    }

    /// Draws a signed value in `[lo, hi]`, both bounds inclusive; which one
    /// is a function of the state and the bounds.
    pub fn next_i64_in(&mut self, lo: i64, hi: i64) -> (r: i64)
        requires
            lo <= hi,
        ensures
            lo <= r <= hi,
            r == lo + spec_next_in(old(self).state, 0, (hi - lo) as u64),
            final(self).state == spec_state_in(old(self).state, 0, (hi - lo) as u64),
    {
        let span: u64 = hi.wrapping_sub(lo) as u64;
        assert(span == hi - lo) by (bit_vector)
            requires
                lo <= hi,
                span == hi.wrapping_sub(lo) as u64,
        ;
        let k = self.next_u64_in(0, span);
        let r: i64 = lo.wrapping_add(k as i64);
        assert(r == lo + k) by (bit_vector)
            requires
                k <= hi.wrapping_sub(lo) as u64,
                span == hi.wrapping_sub(lo) as u64,
                lo <= hi,
                span == hi - lo,
                k <= span,
                r == lo.wrapping_add(k as i64),
        ;
        r
    }

    /// Draws an index strictly below `len`; which one, and the state left
    /// behind, are functions of the state and the length, and the draw is
    /// uniform like every bounded draw.
    pub fn next_index(&mut self, len: usize) -> (r: usize)
        requires
            len > 0,
        ensures
            r < len,
            r == spec_next_in(old(self).state, 0, (len - 1) as u64),
            final(self).state == spec_state_in(old(self).state, 0, (len - 1) as u64),
    {
        let k = self.next_u64_in(0, (len - 1) as u64);
        k as usize
    }

    /// Draws a 53-bit value: the numerator of a dyadic fraction in `[0, 1)`.
    pub fn next_u53(&mut self) -> (r: u64)
        ensures
            r < 0x20000000000000u64,
            r == spec_next(old(self).state) >> 11,
            final(self).state == spec_step(old(self).state),
    {
        let x = self.next_u64();
        assert(x >> 11 < 0x20000000000000u64) by (bit_vector);
        x >> 11
    }
}

} // verus!
