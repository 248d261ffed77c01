//! Temperature-to-color mapping and the smooth transition ramp.
//!
//! A sample at or below the lower threshold maps to pure cold (blue), at
//! or above the upper threshold to pure hot (red); between them the red
//! channel rises linearly with the temperature and the blue channel falls.
//! The indicator never jumps: each scheduler tick moves the driven color
//! at most one fixed step toward the target.

use vstd::arithmetic::div_mod::{
    lemma_basic_div, lemma_div_is_ordered, lemma_div_pos_is_pos, lemma_multiply_divide_lt,
};
use vstd::arithmetic::mul::lemma_mul_inequality;
use vstd::prelude::*;

use crate::temp::ThresholdConfig;

verus! {

/// Largest per-channel change applied in one ramp tick.
pub const RAMP_STEP: u8 = 13;

/// One RGB color, one byte per channel.
#[derive(Clone, Copy, PartialEq, Eq, Structural, Debug)]
pub struct ColorValue {
    pub red: u8,
    pub green: u8,
    pub blue: u8,
}

/// Pure cold: full blue.
pub open spec fn spec_cold() -> ColorValue {
    ColorValue { red: 0, green: 0, blue: 255 }
}

/// Pure hot: full red.
pub open spec fn spec_hot() -> ColorValue {
    ColorValue { red: 255, green: 0, blue: 0 }
}

/// Red level of a sample strictly between the thresholds: the fraction
/// `(sample - min) / (max - min)` scaled to `0..=255`, rounded to nearest.
pub open spec fn interp_level(sample: int, min: int, max: int) -> int
    recommends
        min < max,
{
    ((sample - min) * 255 + (max - min) / 2) / (max - min)
}

/// The color a sample maps to under a configuration: cold at or below the
/// lower threshold, hot at or above the upper one (and for a degenerate
/// configuration with equal thresholds), linear interpolation in between.
pub open spec fn spec_map(sample: int, cfg: ThresholdConfig) -> ColorValue {
    if cfg.min >= cfg.max {
        spec_hot()
    } else if sample <= cfg.min {
        spec_cold()
    } else if sample >= cfg.max {
        spec_hot()
    } else {
        let lvl = interp_level(sample, cfg.min as int, cfg.max as int);
        ColorValue { red: lvl as u8, green: 0, blue: (255 - lvl) as u8 }
    }
}

/// The interpolated level stays within one byte.
pub proof fn lemma_interp_bounds(sample: int, min: int, max: int)
    requires
        min < max,
        min <= sample <= max,
    ensures
        0 <= interp_level(sample, min, max) <= 255,
{
    let num = sample - min;
    let den = max - min;
    let a = num * 255 + den / 2;
    lemma_div_pos_is_pos(den, 2);
    assert(a >= 0) by {
        lemma_mul_inequality(0, num, 255);
    }
    lemma_div_pos_is_pos(a, den);
    assert(num * 255 <= den * 255) by {
        lemma_mul_inequality(num, den, 255);
    }
    assert(den / 2 < den) by {
        lemma_basic_div(1, 2);
        lemma_div_is_ordered(den, den * 1 + 1 * 1, 2);
        assert(den / 2 <= (den + 1) / 2);
        assert((den + 1) / 2 < den || den == 1) by (nonlinear_arith)
            requires
                den >= 1,
        ;
        if den == 1 {
            lemma_basic_div(0, 2);
        }
    }
    assert(den * 255 + den == den * 256) by (nonlinear_arith);
    assert(a < den * 256);
    lemma_multiply_divide_lt(a, den, 256);
}

/// The interpolated level is monotonic in the sample.
pub proof fn lemma_interp_monotone(s1: int, s2: int, min: int, max: int)
    requires
        min < max,
        s1 <= s2,
    ensures
        interp_level(s1, min, max) <= interp_level(s2, min, max),
{
    let den = max - min;
    assert((s1 - min) * 255 <= (s2 - min) * 255) by {
        lemma_mul_inequality(s1 - min, s2 - min, 255);
    }
    lemma_div_is_ordered((s1 - min) * 255 + den / 2, (s2 - min) * 255 + den / 2, den);
}

/// Maps a temperature sample to its indicator color.
pub fn map(sample: i32, cfg: &ThresholdConfig) -> (c: ColorValue)
    requires
        cfg.wf(),
    ensures
        c == spec_map(sample as int, *cfg),
        sample <= cfg.min && cfg.min < cfg.max ==> c == spec_cold(),
        sample >= cfg.max ==> c == spec_hot(),
        c.green == 0,
{
    if cfg.min >= cfg.max {
        ColorValue { red: 255, green: 0, blue: 0 }
    } else if sample <= cfg.min {
        ColorValue { red: 0, green: 0, blue: 255 }
    } else if sample >= cfg.max {
        ColorValue { red: 255, green: 0, blue: 0 }
    } else {
        let num: i32 = sample - cfg.min;
        let den: i32 = cfg.max - cfg.min;
        proof {
            lemma_interp_bounds(sample as int, cfg.min as int, cfg.max as int);
        }
        let lvl: i32 = (num * 255 + den / 2) / den;
        ColorValue { red: lvl as u8, green: 0, blue: (255 - lvl) as u8 }
    }
}

/// Below the lower threshold the mapping is pure cold, at or above the
/// upper one pure hot, and a degenerate configuration is always hot.
pub proof fn lemma_map_clamps(t: int, cfg: ThresholdConfig)
    requires
        cfg.wf(),
    ensures
        t <= cfg.min && cfg.min < cfg.max ==> spec_map(t, cfg) == spec_cold(),
        t >= cfg.max ==> spec_map(t, cfg) == spec_hot(),
        cfg.min == cfg.max ==> spec_map(t, cfg) == spec_hot(),
{
}

/// The red channel never falls and the blue channel never rises as the
/// temperature rises: the interpolation is monotonic.
pub proof fn lemma_map_monotone(t1: int, t2: int, cfg: ThresholdConfig)
    requires
        cfg.wf(),
        t1 <= t2,
    ensures
        spec_map(t1, cfg).red <= spec_map(t2, cfg).red,
        spec_map(t1, cfg).blue >= spec_map(t2, cfg).blue,
{
    let min = cfg.min as int;
    let max = cfg.max as int;
    if min < max {
        if min < t1 < max {
            lemma_interp_bounds(t1, min, max);
        }
        if min < t2 < max {
            lemma_interp_bounds(t2, min, max);
        }
        if min < t1 < max && min < t2 < max {
            lemma_interp_monotone(t1, t2, min, max);
        }
    }
}

/// One channel moved one ramp tick from `cur` toward `target`: the
/// target itself once within a step of it, else a full step closer.
pub open spec fn spec_step_toward(cur: int, target: int) -> int {
    if cur < target {
        if target - cur <= RAMP_STEP as int {
            target
        } else {
            cur + RAMP_STEP as int
        }
    } else {
        if cur - target <= RAMP_STEP as int {
            target
        } else {
            cur - RAMP_STEP as int
        }
    }
}

/// Steps one channel toward its target.
pub fn step_toward(cur: u8, target: u8) -> (r: u8)
    ensures
        r as int == spec_step_toward(cur as int, target as int),
{
    if cur < target {
        if target - cur <= RAMP_STEP {
            target
        } else {
            cur + RAMP_STEP
        }
    } else {
        if cur - target <= RAMP_STEP {
            target
        } else {
            cur - RAMP_STEP
        }
    }
}

/// The whole color moved one ramp tick toward the target.
pub open spec fn spec_ramp_step(cur: ColorValue, target: ColorValue) -> ColorValue {
    ColorValue {
        red: spec_step_toward(cur.red as int, target.red as int) as u8,
        green: spec_step_toward(cur.green as int, target.green as int) as u8,
        blue: spec_step_toward(cur.blue as int, target.blue as int) as u8,
    }
}

/// Steps every channel one ramp tick toward the target color.
pub fn ramp_step(cur: ColorValue, target: ColorValue) -> (r: ColorValue)
    ensures
        r == spec_ramp_step(cur, target),
{
    ColorValue {
        red: step_toward(cur.red, target.red),
        green: step_toward(cur.green, target.green),
        blue: step_toward(cur.blue, target.blue),
    }
}

/// Distance between two channel values.
pub open spec fn spec_dist(a: int, b: int) -> int {
    if a < b {
        b - a
    } else {
        a - b
    }
}

/// Every ramp tick strictly shrinks a channel's distance to its target
/// until the target is reached, so a ramp always terminates.
pub proof fn lemma_ramp_progress(cur: int, target: int)
    ensures
        spec_dist(spec_step_toward(cur, target), target) == if spec_dist(cur, target)
            <= RAMP_STEP as int {
            0int
        } else {
            spec_dist(cur, target) - RAMP_STEP as int
        },
{
}

} // verus!

