//! Fixed-point temperatures and the threshold configuration.
//!
//! Temperatures are held in tenths of a degree Celsius, so the sensor's
//! valid range of -40.0..=85.0 degrees becomes -400..=850 and the half
//! degree editing step becomes 5.

use vstd::prelude::*;

verus! {

/// Lowest representable temperature, in tenths of a degree.
pub const TEMP_MIN: i32 = -400;
/// Highest representable temperature, in tenths of a degree.
pub const TEMP_MAX: i32 = 850;
/// Editing step of half a degree, in tenths.
pub const TEMP_STEP: i32 = 5;
/// Built-in default minimum threshold (18.0 degrees).
pub const DEFAULT_MIN: i32 = 180;
/// Built-in default maximum threshold (26.0 degrees).
pub const DEFAULT_MAX: i32 = 260;

/// A temperature lies within the sensor's valid range.
pub open spec fn temp_in_range(t: int) -> bool {
    TEMP_MIN as int <= t && t <= TEMP_MAX as int
}

/// Clamp of `t` into `[lo, hi]`.
pub open spec fn spec_clamp(t: int, lo: int, hi: int) -> int {
    if t < lo {
        lo
    } else if t > hi {
        hi
    } else {
        t
    }
}

/// Clamps `t` into `[lo, hi]`.
pub fn clamp(t: i32, lo: i32, hi: i32) -> (r: i32)
    requires
        lo <= hi,
    ensures
        r as int == spec_clamp(t as int, lo as int, hi as int),
{
    if t < lo {
        lo
    } else if t > hi {
        hi
    } else {
        t
    }
}

/// The comfort range: both bounds in the sensor's valid range and ordered.
#[derive(Clone, Copy, PartialEq, Eq, Structural, Debug)]
pub struct ThresholdConfig {
    /// Lower threshold, tenths of a degree.
    pub min: i32,
    /// Upper threshold, tenths of a degree.
    pub max: i32,
}

impl ThresholdConfig {
    /// Both thresholds are in range and ordered.
    pub open spec fn wf(self) -> bool {
        temp_in_range(self.min as int) && temp_in_range(self.max as int) && self.min <= self.max
    }

    /// The built-in default configuration used when storage is absent or corrupt.
    pub fn default_config() -> (r: ThresholdConfig)
        ensures
            r == spec_default_config(),
            r.wf(),
    {
        ThresholdConfig { min: DEFAULT_MIN, max: DEFAULT_MAX }
    }
}

/// The built-in default configuration.
pub open spec fn spec_default_config() -> ThresholdConfig {
    ThresholdConfig { min: DEFAULT_MIN, max: DEFAULT_MAX }
}

} // verus!
