//! The linear-congruential generator that feeds every randomised workload.

use vstd::prelude::*;

verus! {

/// Multiplier of the congruence.
pub const MULTIPLIER: u32 = 1664525;

/// Increment of the congruence.
pub const INCREMENT: u32 = 1013904223;

/// Denominator of a unit draw: a draw with numerator `n` stands for `n / 2^32`.
pub const UNIT_DENOMINATOR: u64 = 4294967296;

/// One step of the congruence: `state * 1664525 + 1013904223 (mod 2^32)`.
#[verifier::opaque]
pub open spec fn lcg_step(state: u32) -> u32 {
    ((state as int * 1664525 + 1013904223) % 0x1_0000_0000) as u32
}

/// The register after `draws` steps from `seed`.
pub open spec fn lcg_state(seed: u32, draws: nat) -> u32
    decreases draws,
{
    if draws == 0 {
        seed
    } else {
        lcg_step(lcg_state(seed, (draws - 1) as nat))
    }
}

/// A stream goes on from where it stands: `more` steps from the register
/// that `first` steps reached are `first + more` steps from the seed. So a
/// draw depends on the seed and on the number of draws before it, and on
/// nothing else.
pub proof fn lemma_state_continues(seed: u32, first: nat, more: nat)
    ensures
        lcg_state(lcg_state(seed, first), more) == lcg_state(seed, first + more),
    decreases more,
{
    if more > 0 {
        lemma_state_continues(seed, first, (more - 1) as nat);
        assert(lcg_state(seed, first + more) == lcg_step(
            lcg_state(seed, (first + more - 1) as nat),
        ));
    }
}

/// A generator: one 32-bit register, advanced by every draw.
pub struct LCG {
    state: u32,
}

impl View for LCG {
    type V = u32;

    /// The register.
    closed spec fn view(&self) -> u32 {
        self.state
    }
}

impl LCG {
    /// A generator whose register holds `seed`.
    pub fn new(seed: u32) -> (rng: LCG)
        ensures
            rng@ == seed,
    {
        LCG { state: seed }
    }

    /// Advances the register by one step and returns it as the numerator of
    /// a fraction over `2^32`, a value in `[0, 1)`.
    pub fn float64(&mut self) -> (numerator: u32)
        ensures
            final(self)@ == lcg_step(old(self)@),
            numerator == final(self)@,
            (numerator as int) < UNIT_DENOMINATOR,
    {
        self.step();
        self.state
    }

    /// Advances the register by one step and returns it.
    pub fn next_int(&mut self) -> (value: u32)
        ensures
            final(self)@ == lcg_step(old(self)@),
            value == final(self)@,
    {
        self.step();
        self.state
    }

    /// Advances the register by one step, with wrapping arithmetic.
    fn step(&mut self)
        ensures
            final(self)@ == lcg_step(old(self)@),
    {
        self.state = self.state.wrapping_mul(MULTIPLIER).wrapping_add(INCREMENT);
        proof {
            lemma_wrapping_step(old(self).state);
        }
    }
}

/// Two wrapping operations on the register amount to one step modulo `2^32`.
proof fn lemma_wrapping_step(state: u32)
    ensures
        state.wrapping_mul(MULTIPLIER).wrapping_add(INCREMENT) == lcg_step(state),
{
    reveal(lcg_step);
    let product = state as int * 1664525;
    let wrapped = state.wrapping_mul(MULTIPLIER);
    assert(wrapped as int == product % 0x1_0000_0000) by {
        assert(0 <= product) by (nonlinear_arith)
            requires
                product == state as int * 1664525,
                0 <= state as int,
        ;
    }
    assert((product % 0x1_0000_0000 + 1013904223) % 0x1_0000_0000 == (product + 1013904223)
        % 0x1_0000_0000) by {
        vstd::arithmetic::div_mod::lemma_add_mod_noop(product, 1013904223, 0x1_0000_0000);
    }
}

} // verus!
