//! The deterministic white-noise generator: the same time always gives the
//! same noise level.

use vstd::prelude::*;
use crate::melody::generator::{lcg_next, lcg_step};

verus! {

/// The noise level at millisecond `time_ms`: one step of the linear
/// congruential generator from `time_ms`, reduced to 0..32768 (played as
/// `level / 16384 - 1`).
pub fn noise_level(time_ms: u32) -> (r: u16)
    ensures
        r == lcg_next(time_ms) % 32768,
        r < 32768,
{
    let seed = lcg_step(time_ms);
    (seed % 32768) as u16
}

} // verus!
