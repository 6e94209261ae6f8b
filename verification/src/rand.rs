use vstd::prelude::*;

verus! {

/// Multiplier of the linear congruential generator.
pub const LCG_MULTIPLIER: u128 = 6364136223846793005;

/// Increment of the linear congruential generator.
pub const LCG_INCREMENT: u128 = 1442695040888963407;

/// One step of the generator: multiply and add, both wrapping on the
/// 128-bit state.
pub open spec fn lcg_next(state: u128) -> u128 {
    vstd::wrapping::u128_specs::wrapping_add(
        vstd::wrapping::u128_specs::wrapping_mul(LCG_MULTIPLIER, state),
        LCG_INCREMENT,
    )
}

/// The byte a state yields: bits 56 through 63.
pub open spec fn lcg_output(state: u128) -> u8 {
    ((state >> 56) & 0xFF) as u8
}

/// Relies on std::time::SystemTime::now for a wall-clock reading; yields
/// 5555 when the clock predates the epoch.  Nothing can be promised of
/// the value, so nothing is.
#[verifier::external_body]
fn get_epoch_micros() -> u128 {
    std::time::SystemTime::now()
        .duration_since(std::time::UNIX_EPOCH)
        .map_or(5555u128, |d| d.as_micros())
}

/// A deterministic 8-bit pseudo-random generator: a linear congruential
/// generator over 128-bit state.  Not cryptographically secure.
pub struct RandGen {
    state: u128,
}

impl RandGen {
    /// The generator state, for use in contracts.
    pub closed spec fn view(self) -> u128 {
        self.state
    }

    /// A generator seeded from the wall clock, so runs differ; the state
    /// it starts from is unspecified.
    pub fn new() -> Self {
        RandGen { state: get_epoch_micros() }
    }

    /// A generator at a chosen seed; the byte stream it yields is then
    /// fully determined by `lcg_next` and `lcg_output`.
    pub fn from_seed(seed: u128) -> (r: Self)
        ensures
            r@ == seed,
    {
        RandGen { state: seed }
    }

    /// Advance the state once and yield bits 56..63 of the new state.
    pub fn next(&mut self) -> (r: u8)
        ensures
            final(self)@ == lcg_next(old(self)@),
            r == lcg_output(final(self)@),
    {
        self.state = LCG_MULTIPLIER.wrapping_mul(self.state).wrapping_add(LCG_INCREMENT);
        ((self.state >> 56) & 0xFF) as u8
    }
}

} // verus!
