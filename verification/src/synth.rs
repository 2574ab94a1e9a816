//! The integer side of the synthesizer: the envelope's shape and the noise
//! generator that drives the snare, hat and clap.

use vstd::prelude::*;

verus! {

/// The noise generator's starting state for the snare.
pub const SNARE_SEED: u32 = 0xDEAD_BEEF;

/// The noise generator's starting state for the hi-hat.
pub const HAT_SEED: u32 = 0xFACE_B00C;

/// The noise generator's starting state for the clap.
pub const CLAP_SEED: u32 = 0xCAFE_BABE;

/// The level of the envelope at sample `i` of `total`, as a fraction
/// (numerator, denominator): rising over the first `attack` samples,
/// falling over the last `release` samples (where the note is longer than
/// its release), full in between.
pub open spec fn envelope_of(i: int, total: int, attack: int, release: int) -> (int, int) {
    if i < attack {
        (i, attack)
    } else if total > release && i >= total - release {
        (total - i, release)
    } else {
        (1, 1)
    }
}

/// Computing the envelope does not panic: a sample in the release stretch
/// lies within the note.
pub open spec fn envelope_defined(i: int, total: int, attack: int, release: int) -> bool {
    i < attack || !(total > release && i >= total - release) || i <= total
}

/// The envelope level at sample `i` of a note of `total` samples, as a
/// fraction (see `envelope_of`).
pub fn envelope_ratio(i: usize, total: usize, attack: usize, release: usize) -> (r: (usize, usize))
    requires
        envelope_defined(i as int, total as int, attack as int, release as int),
    ensures
        (r.0 as int, r.1 as int) == envelope_of(i as int, total as int, attack as int, release as int),
        r.0 <= r.1,
{
    if i < attack {
        (i, attack)
    } else if total > release && i >= total - release {
        (total - i, release)
    } else {
        (1, 1)
    }
}

/// One step of the noise generator: `state * 1664525 + 1013904223`, modulo 2^32.
pub open spec fn lcg_step(state: int) -> int {
    (state * 1664525 + 1013904223) % 0x1_0000_0000
}

/// Advances the noise generator by one step.
pub fn lcg_next(state: u32) -> (r: u32)
    ensures
        r == lcg_step(state as int),
{
    let m = state.wrapping_mul(1_664_525);
    let r = m.wrapping_add(1_013_904_223);
    assert(m == (state as int * 1664525) % 0x1_0000_0000);
    assert(r == lcg_step(state as int)) by (nonlinear_arith)
        requires
            m == (state as int * 1664525) % 0x1_0000_0000,
            r == (if m + 1013904223 > u32::MAX {
                m + 1013904223 - 0x1_0000_0000
            } else {
                m + 1013904223
            }),
            0 <= state,
    ;
    r
}

/// The top 16 bits of the generator's state, which set a noise sample's level.
pub fn noise_bits(state: u32) -> (r: u32)
    ensures
        r == state / 65536,
        r < 65536,
{
    state / 65536
}

} // verus!
