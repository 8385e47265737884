//! Random numbers for the sampling steps of the tracer, drawn from a
//! generator that the caller owns.

use vstd::prelude::*;
use rand::Rng;
use rand::SeedableRng;
use crate::scalar::{Scalar, SCALE};

verus! {

/// How many points a rejection sampler draws before it gives up.
pub const MAX_DRAWS: u32 = 1000;

/// A rejection sampler drew `MAX_DRAWS` points and accepted none.
#[derive(Clone, Copy, PartialEq, Eq, Structural, Debug)]
pub struct SamplingError {
    pub draws: u32,
}

/// The generator `rand::rngs::StdRng`, of which nothing is known here
/// but that it can be seeded and asked for numbers.
#[verifier::external_type_specification]
#[verifier::external_body]
pub struct ExStdRng(rand::rngs::StdRng);

/// Calls `rand::SeedableRng::seed_from_u64` for `rand::rngs::StdRng`: a
/// generator whose numbers follow from `seed`. Nothing is claimed of it.
#[verifier::external_body]
fn seeded_generator(seed: u64) -> (rng: rand::rngs::StdRng) {
    rand::rngs::StdRng::seed_from_u64(seed)
}

/// Calls `rand::Rng::gen_range` on `rng` with the half-open range from
/// `low` to `high`. The contract claims only that the number drawn lies in
/// that range: for `i64` the method adds to `low` a number below `high -
/// low`. It panics on an empty range, which `requires` leaves out. Nothing
/// is claimed of how the numbers are spread over the range, nor of what
/// the generator holds afterwards.
#[verifier::external_body]
fn draw_in_range(rng: &mut rand::rngs::StdRng, low: i64, high: i64) -> (r: i64)
    requires
        low < high,
    ensures
        low <= r < high,
{
    rng.gen_range(low..high)
}

/// Whether `u` is at least 0 and less than 1.
pub open spec fn is_unit_draw(u: Scalar) -> bool {
    0 <= u.raw < SCALE
}

/// The digit of `n` at the place `k`, counted from the lowest, where `n`
/// is written to the base of a million: a number of millionths.
pub open spec fn spec_million_digit(n: u64, k: u32) -> Scalar {
    if k == 0 {
        Scalar { raw: (n % 1_000_000) as i64 }
    } else if k == 1 {
        Scalar { raw: (n / 1_000_000 % 1_000_000) as i64 }
    } else if k == 2 {
        Scalar { raw: (n / 1_000_000_000_000 % 1_000_000) as i64 }
    } else {
        Scalar { raw: 0 }
    }
}

/// The digit of `n` at the place `k`, counted from the lowest, where `n`
/// is written to the base of a million: a number of millionths.
#[verifier::when_used_as_spec(spec_million_digit)]
pub fn million_digit(n: u64, k: u32) -> (u: Scalar)
    ensures
        u == spec_million_digit(n, k),
        is_unit_draw(u),
{
    if k == 0 {
        Scalar { raw: (n % 1_000_000) as i64 }
    } else if k == 1 {
        Scalar { raw: (n / 1_000_000 % 1_000_000) as i64 }
    } else if k == 2 {
        Scalar { raw: (n / 1_000_000_000_000 % 1_000_000) as i64 }
    } else {
        Scalar { raw: 0 }
    }
}

/// A source of random numbers. Whoever renders owns one and hands it to
/// each step that draws. Two that were made from the same seed give the
/// same numbers, as long as the generator of the `rand` crate stays the
/// same; no contract speaks of that.
pub struct Sampler {
    rng: rand::rngs::StdRng,
}

impl Sampler {
    /// The source whose numbers follow from `seed`.
    pub fn new(seed: u64) -> (s: Sampler) {
        Sampler { rng: seeded_generator(seed) }
    }

    /// A random number that is at least 0 and less than 1.
    pub fn unit(&mut self) -> (u: Scalar)
        ensures
            is_unit_draw(u),
    {
        Scalar { raw: draw_in_range(&mut self.rng, 0, SCALE) }
    }

    /// Two random numbers that are at least 0 and less than 1: the two
    /// digits, to the base of a million, of one number drawn below a
    /// million to the second power.
    pub fn pair(&mut self) -> (u: (Scalar, Scalar))
        ensures
            is_unit_draw(u.0),
            is_unit_draw(u.1),
    {
        let n = draw_in_range(&mut self.rng, 0, 1_000_000_000_000) as u64;
        (million_digit(n, 1), million_digit(n, 0))
    }

    /// Three random numbers that are at least 0 and less than 1: the
    /// three digits, to the base of a million, of one number drawn below
    /// a million to the third power.
    pub fn triple(&mut self) -> (u: (Scalar, Scalar, Scalar))
        ensures
            is_unit_draw(u.0),
            is_unit_draw(u.1),
            is_unit_draw(u.2),
    {
        let n = draw_in_range(&mut self.rng, 0, 1_000_000_000_000_000_000) as u64;
        (million_digit(n, 2), million_digit(n, 1), million_digit(n, 0))
    }
}

} // verus!
