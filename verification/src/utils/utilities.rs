//! Random-sampling primitives.
//!
//! The process-wide generator of the `rand` crate is the single source of
//! randomness. Its contract promises only a range, never a particular value,
//! so everything proved about callers holds for every outcome of a draw.

use vstd::prelude::*;
use rand::Rng;
use crate::fixed::FX_CAP;

verus! {

/// Relies on rand::Rng::gen_range over rand::thread_rng: a uniform sample
/// from `[0, bound)`; it panics only on an empty range, which the
/// precondition excludes.
#[verifier::external_body]
fn random_below(bound: u64) -> (r: u64)
    requires
        0 < bound,
    ensures
        r < bound,
{
    rand::thread_rng().gen_range(0..bound)
}

/// A uniform integer in `[min, max)`, or 0 when the range is empty.
pub fn get_random_integer(min: usize, max: usize) -> (r: usize)
    ensures
        min < max ==> min <= r < max,
        min >= max ==> r == 0,
{
    if min >= max {
        0
    } else {
        let off = random_below((max - min) as u64);
        proof {
            assert(off < (max - min) as u64);
        }
        min + (off as usize)
    }
}

/// A uniform fixed-point sample in `[min, max)` (multiples of one raw unit),
/// or 0 when the range is empty. This is the continuous-sampling capability;
/// values are fixed-point raw numbers, not floats.
pub fn get_random_float(min: i64, max: i64) -> (r: i64)
    requires
        0 <= min,
        max <= FX_CAP,
    ensures
        min < max ==> min <= r < max,
        min >= max ==> r == 0,
{
    if min >= max {
        0
    } else {
        let off = random_below((max - min) as u64);
        min + (off as i64)
    }
}

} // verus!
