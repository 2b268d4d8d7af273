//! Randomness for the sampling loops, drawn from `rand` behind trusted
//! wrappers. Every worker owns its own generator; a generator built from a
//! seed makes a render reproducible.

use vstd::prelude::*;
use rand::Rng;
use rand::SeedableRng;
use crate::fx::SCALE;
use crate::vec3::{Vec3, dot3};

verus! {

/// Declares rand's `StdRng` — the generator every sampling function draws
/// from — so that it can stand in signatures; it stays opaque here. A
/// caller may hand in a generator built from a fixed seed, which makes the
/// pixels it renders reproducible.
#[verifier::external_type_specification]
#[verifier::external_body]
pub struct ExStdRng(rand::rngs::StdRng);

/// Relies on rand's `StdRng::from_entropy`: a generator seeded from the
/// operating system. Nothing about its draws can be promised, and the call
/// aborts if the operating system's entropy source fails — an environmental
/// failure no precondition can exclude.
#[verifier::external_body]
pub fn entropy_rng() -> rand::rngs::StdRng {
    rand::rngs::StdRng::from_entropy()
}

/// Relies on rand's `Rng::gen_range` over `0..n`: a draw uniform in that
/// range, in particular below `n`; the range is nonempty, so the call
/// cannot panic.
#[verifier::external_body]
fn gen_below(rng: &mut rand::rngs::StdRng, n: u64) -> (r: u64)
    requires
        n >= 1,
    ensures
        r < n,
{
    rng.gen_range(0..n)
}

/// A uniform fixed-point sample from `[0, 1)`.
pub fn rand01(rng: &mut rand::rngs::StdRng) -> (r: i64)
    ensures
        0 <= r < SCALE,
{
    gen_below(rng, 65536) as i64
}

/// A uniform fixed-point sample from `[-1, 1)`, the `2 * x - 1` stretch of
/// a unit sample used by the rejection loops.
pub fn rand_sym(rng: &mut rand::rngs::StdRng) -> (r: i64)
    ensures
        -SCALE <= r < SCALE,
{
    2 * rand01(rng) - SCALE
}

/// Rejection sampling of a point uniform in the open unit ball: draw points
/// uniform in the cube `[-1, 1)^3` until one has squared length below one.
/// Each draw is accepted with probability about one half, so the loop ends
/// after a few draws; a draw budget of `2^64` bounds it for the termination
/// proof, and an exhausted budget — never observable in practice — yields
/// the center of the ball.
pub fn random_in_unit_sphere(rng: &mut rand::rngs::StdRng) -> (p: Vec3)
    ensures
        dot3(p@, p@) < SCALE,
{
    let mut p = Vec3::unit(SCALE);
    let mut sq = p.squared_length();
    let mut budget: u64 = u64::MAX;
    while sq >= SCALE && budget > 0
        invariant
            sq as int == dot3(p@, p@),
        decreases budget,
    {
        p = Vec3 { x: rand_sym(rng), y: rand_sym(rng), z: rand_sym(rng) };
        sq = p.squared_length();
        budget = budget - 1;
    }
    if sq >= SCALE {
        p = Vec3 { x: 0, y: 0, z: 0 };
        assert(dot3(p@, p@) == 0);
    }
    p
}

} // verus!
