//! The integer limits of a generator configuration.
//!
//! The configuration's scales, weights, and thresholds are real numbers and are
//! validated by the caller; what lives here are the integer limits and the
//! checks the integer fields pass: octave counts, the shaping pass count, and
//! cell sizes.
use vstd::prelude::*;

verus! {

/// Largest accepted fbm octave count.
pub const MAX_FBM_OCTAVES: u8 = 16;

/// Largest accepted elevation shaping pass count.
pub const MAX_CONTRAST_PASSES: u8 = 4;

/// A cell size that was rejected: sizes are divisors in floor division, so
/// zero is an error.
#[derive(Debug, Clone, Copy, PartialEq, Eq)]
pub struct ZeroSize {
    /// The configuration field that held the size.
    pub field: &'static str,
}

/// Rejects a zero cell size. A size is the divisor in floor division, and
/// floor division needs a positive divisor, which is why sizes are unsigned
/// and zero is an error.
pub fn positive_size(field: &'static str, value: u32) -> (checked: Result<(), ZeroSize>)
    ensures
        checked is Ok <==> value > 0,
        checked matches Err(e) ==> e.field == field,
{
    if value == 0 {
        return Err(ZeroSize { field });
    }
    Ok(())
}

/// An fbm octave count outside `1..=MAX_FBM_OCTAVES`.
#[derive(Debug, Clone, Copy, PartialEq, Eq)]
pub struct OctaveCount {
    /// The configuration field that held the count.
    pub field: &'static str,
    /// The rejected count.
    pub octaves: u8,
}

/// Rejects an octave count of zero or one above [`MAX_FBM_OCTAVES`]. Zero
/// octaves is an empty sum; more than the maximum cannot add detail at any
/// wavelength the world can express.
pub fn octave_count(field: &'static str, octaves: u8) -> (checked: Result<(), OctaveCount>)
    ensures
        checked is Ok <==> 1 <= octaves <= MAX_FBM_OCTAVES,
        checked matches Err(e) ==> e.field == field && e.octaves == octaves,
{
    if octaves == 0 || octaves > MAX_FBM_OCTAVES {
        return Err(OctaveCount { field, octaves });
    }
    Ok(())
}

/// Rejects an elevation shaping pass count above [`MAX_CONTRAST_PASSES`],
/// handing the rejected count back. Zero passes is accepted: no shaping.
pub fn contrast_passes(passes: u8) -> (checked: Result<(), u8>)
    ensures
        checked is Ok <==> passes <= MAX_CONTRAST_PASSES,
        checked matches Err(p) ==> p == passes,
{
    if passes > MAX_CONTRAST_PASSES {
        return Err(passes);
    }
    Ok(())
}

} // verus!
