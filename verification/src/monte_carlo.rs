//! Monte Carlo estimate of pi: random points in the unit square, counted
//! when they fall inside the quarter circle.
//!
//! A coordinate is a unit draw, a numerator over `2^32`, so the test
//! `x^2 + y^2 <= 1` is made exactly, on the numerators.

use vstd::prelude::*;
use crate::generator::{lcg_state, LCG};

verus! {

/// Number of points that the workload draws.
pub const MONTE_CARLO_POINTS: u32 = 1000000;

/// Seed of the workload's generator.
pub const MONTE_CARLO_SEED: u32 = 42;

/// An estimate of pi: four times `inside`, divided by `total`.
#[derive(Clone, Copy, Debug, PartialEq, Eq, Structural)]
pub struct PiEstimate {
    /// Number of points that fell inside the quarter circle.
    pub inside: u32,
    /// Number of points that were drawn.
    pub total: u32,
}

/// The point with numerators `x` and `y` lies inside the quarter circle, its
/// border included: `(x / 2^32)^2 + (y / 2^32)^2 <= 1`.
pub open spec fn in_quarter_circle(x: u32, y: u32) -> bool {
    x * x + y * y <= 0x1_0000_0000_0000_0000
}

/// Number of the first `points` points drawn from `seed` that lie inside the
/// quarter circle. Each point takes two draws, first `x`, then `y`.
pub open spec fn points_inside(seed: u32, points: nat) -> nat
    decreases points,
{
    if points == 0 {
        0
    } else {
        let before = (points - 1) as nat;
        points_inside(seed, before) + if in_quarter_circle(
            lcg_state(seed, 2 * before + 1),
            lcg_state(seed, 2 * before + 2),
        ) {
            1nat
        } else {
            0nat
        }
    }
}

/// No more points lie inside than were drawn.
pub proof fn lemma_points_inside_bounded(seed: u32, points: nat)
    ensures
        points_inside(seed, points) <= points,
    decreases points,
{
    if points > 0 {
        lemma_points_inside_bounded(seed, (points - 1) as nat);
    }
}

/// Draws `iterations` points from a generator seeded with `seed` and counts
/// those inside the quarter circle.
pub fn count_inside(seed: u32, iterations: u32) -> (inside: u32)
    ensures
        inside == points_inside(seed, iterations as nat),
{
    let mut rng = LCG::new(seed);
    let mut inside: u32 = 0;
    for point in 0..iterations
        invariant
            rng@ == lcg_state(seed, (2 * point) as nat),
            inside == points_inside(seed, point as nat),
            inside <= point,
    {
        let x: u32 = rng.float64();
        let y: u32 = rng.float64();
        assert(x == lcg_state(seed, (2 * point + 1) as nat));
        assert(y == lcg_state(seed, (2 * point + 2) as nat));
        assert(x * x <= 0xFFFF_FFFF_0000_0000 && y * y <= 0xFFFF_FFFF_0000_0000) by (nonlinear_arith)
            requires
                x <= 0xFFFF_FFFF,
                y <= 0xFFFF_FFFF,
        ;
        let xx: u128 = (x as u128) * (x as u128);
        let yy: u128 = (y as u128) * (y as u128);
        if xx + yy <= 0x1_0000_0000_0000_0000 {
            inside += 1;
        }
    }
    inside
}

/// The Monte Carlo workload: one million points from seed 42.
pub fn rust_monte_carlo_pi() -> (estimate: PiEstimate)
    ensures
        estimate.inside == points_inside(42, 1000000),
        estimate.total == 1000000,
        estimate.inside <= estimate.total,
{
    proof {
        lemma_points_inside_bounded(MONTE_CARLO_SEED, MONTE_CARLO_POINTS as nat);
    }
    let inside: u32 = count_inside(MONTE_CARLO_SEED, MONTE_CARLO_POINTS);
    PiEstimate { inside, total: MONTE_CARLO_POINTS }
}

} // verus!
