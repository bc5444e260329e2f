//! Cardinalities: how many records or elements to produce.
//!
//! A count is either fixed or an inclusive range resolved through the run's
//! random stream at generation time.  An absent count means one.  `Len` is
//! the same notion under the name array specifications use.

use vstd::prelude::*;
use crate::config::GeneratorConfig;
use crate::rng::spec_state_in;

verus! {

/// How many records an entity produces: a fixed number or an inclusive range.
#[derive(Debug, Clone)]
pub enum Count {
    /// Exactly this many.
    Fixed(u64),
    /// A number drawn from `[low, high]`, both inclusive.
    Range(u64, u64),
}

/// Resolution of a count specification to a concrete number.
pub trait GetCount {
    /// Which numbers this specification can resolve to.
    spec fn spec_count_ok(&self, r: u64) -> bool;

    /// Whether resolving this specification draws from the stream: only a
    /// non-empty range does.
    spec fn spec_count_draws(&self) -> bool;

    /// The stream state resolution leaves behind, as a function of the state
    /// it found.
    spec fn spec_count_state(&self, s: u64) -> u64;

    /// Resolves the specification, drawing from the run's stream for ranges.
    /// A specification that draws nothing leaves the stream untouched; one
    /// that draws advances it by exactly one step.
    fn count(&self, config: &mut GeneratorConfig) -> (r: u64)
        ensures
            self.spec_count_ok(r),
            !self.spec_count_draws() ==> final(config).rng == old(config).rng,
            final(config).rng.state == self.spec_count_state(old(config).rng.state),
            final(config).store() == old(config).store(),
            final(config).customs() == old(config).customs(),
            final(config).gen_value == old(config).gen_value,
            final(config).fake_keys == old(config).fake_keys,
            final(config).fake_generator == old(config).fake_generator,
            final(config).custom_values == old(config).custom_values,
            final(config).locale == old(config).locale,
    ;
}

impl GetCount for Count {
    /// A fixed count resolves to itself; a range to a value inside it.  An
    /// empty range resolves to its lower bound.
    open spec fn spec_count_ok(&self, r: u64) -> bool {
        match *self {
            Count::Fixed(n) => r == n,
            Count::Range(a, b) => if a <= b {
                a <= r <= b
            } else {
                r == a
            },
        }
    }

    open spec fn spec_count_draws(&self) -> bool {
        match *self {
            Count::Fixed(_) => false,
            Count::Range(a, b) => a <= b,
        }
    }

    open spec fn spec_count_state(&self, s: u64) -> u64 {
        match *self {
            Count::Fixed(_) => s,
            Count::Range(a, b) => if a <= b {
                spec_state_in(s, a, b)
            } else {
                s
            },
        }
    }

    fn count(&self, config: &mut GeneratorConfig) -> (r: u64) {
        match self {
            Count::Fixed(n) => *n,
            Count::Range(a, b) => {
                if *a <= *b {
                    config.rng.next_u64_in(*a, *b)
                } else {
                    *a
                }
            },
        }
    }
}

impl GetCount for Option<Count> {
    /// An absent count resolves to one.
    open spec fn spec_count_ok(&self, r: u64) -> bool {
        match self {
            Some(c) => c.spec_count_ok(r),
            None => r == 1,
        }
    }

    open spec fn spec_count_draws(&self) -> bool {
        match self {
            Some(c) => c.spec_count_draws(),
            None => false,
        }
    }

    open spec fn spec_count_state(&self, s: u64) -> u64 {
        match self {
            Some(c) => c.spec_count_state(s),
            None => s,
        }
    }

    fn count(&self, config: &mut GeneratorConfig) -> (r: u64) {
        match self {
            Some(c) => c.count(config),
            None => 1,
        }
    }
}

/// How many elements an array holds: a fixed number or an inclusive range.
#[derive(Debug, Clone)]
pub enum Len {
    /// Exactly this many.
    Fixed(u64),
    /// A number drawn from `[low, high]`, both inclusive.
    Range(u64, u64),
}

/// Resolution of a length specification to a concrete number.
pub trait GetLength {
    /// Which numbers this specification can resolve to.
    spec fn spec_len_ok(&self, r: u64) -> bool;

    /// Whether resolving this specification draws from the stream: only a
    /// non-empty range does.
    spec fn spec_len_draws(&self) -> bool;

    /// The stream state resolution leaves behind, as a function of the state
    /// it found.
    spec fn spec_len_state(&self, s: u64) -> u64;

    /// Resolves the specification, drawing from the run's stream for ranges.
    /// A specification that draws nothing leaves the stream untouched; one
    /// that draws advances it by exactly one step.
    fn len(&self, config: &mut GeneratorConfig) -> (r: u64)
        ensures
            self.spec_len_ok(r),
            !self.spec_len_draws() ==> final(config).rng == old(config).rng,
            final(config).rng.state == self.spec_len_state(old(config).rng.state),
            final(config).store() == old(config).store(),
            final(config).customs() == old(config).customs(),
            final(config).gen_value == old(config).gen_value,
            final(config).fake_keys == old(config).fake_keys,
            final(config).fake_generator == old(config).fake_generator,
            final(config).custom_values == old(config).custom_values,
            final(config).locale == old(config).locale,
    ;
}

impl GetLength for Len {
    /// A fixed length resolves to itself; a range to a value inside it.  An
    /// empty range resolves to its lower bound.
    open spec fn spec_len_ok(&self, r: u64) -> bool {
        match *self {
            Len::Fixed(n) => r == n,
            Len::Range(a, b) => if a <= b {
                a <= r <= b
            } else {
                r == a
            },
        }
    }

    open spec fn spec_len_draws(&self) -> bool {
        match *self {
            Len::Fixed(_) => false,
            Len::Range(a, b) => a <= b,
        }
    }

    open spec fn spec_len_state(&self, s: u64) -> u64 {
        match *self {
            Len::Fixed(_) => s,
            Len::Range(a, b) => if a <= b {
                spec_state_in(s, a, b)
            } else {
                s
            },
        }
    }

    fn len(&self, config: &mut GeneratorConfig) -> (r: u64) {
        match self {
            Len::Fixed(n) => *n,
            Len::Range(a, b) => {
                if *a <= *b {
                    config.rng.next_u64_in(*a, *b)
                } else {
                    *a
                }
            },
        }
    }
}

impl GetLength for Option<Len> {
    /// An absent length resolves to one.
    open spec fn spec_len_ok(&self, r: u64) -> bool {
        match self {
            Some(c) => c.spec_len_ok(r),
            None => r == 1,
        }
    }

    open spec fn spec_len_draws(&self) -> bool {
        match self {
            Some(c) => c.spec_len_draws(),
            None => false,
        }
    }

    open spec fn spec_len_state(&self, s: u64) -> u64 {
        match self {
            Some(c) => c.spec_len_state(s),
            None => s,
        }
    }

    fn len(&self, config: &mut GeneratorConfig) -> (r: u64) {
        match self {
            Some(c) => c.len(config),
            None => 1,
        }
    }
}

} // verus!
