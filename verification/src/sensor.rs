//! Sensor samples and the stale-sample policy.
//!
//! A transient read failure must never reach the display or the color
//! output: the controller keeps the last good sample for that tick and
//! tries again on the next one.

use vstd::prelude::*;

verus! {

/// Sampling cadence in milliseconds.
pub const SAMPLE_PERIOD_MS: u64 = 5000;

/// A sensor read that failed this tick; retried on the next.
#[derive(Clone, Copy, PartialEq, Eq, Structural, Debug)]
pub enum SensorError {
    TransientRead,
}

/// One timestamped temperature sample, tenths of a degree.
#[derive(Clone, Copy, PartialEq, Eq, Structural, Debug)]
pub struct SensorSample {
    pub temperature: i32,
    pub taken_at_ms: u64,
}

/// The sample the controller holds after a read: the new one on success,
/// the previous one (possibly none) on failure.
pub open spec fn spec_absorb(
    last: Option<SensorSample>,
    reading: Result<SensorSample, SensorError>,
) -> Option<SensorSample> {
    match reading {
        Result::Ok(s) => Some(s),
        Result::Err(_) => last,
    }
}

/// Folds a sensor read into the held sample: a failure never displaces
/// the last good sample.
pub fn absorb_reading(
    last: Option<SensorSample>,
    reading: Result<SensorSample, SensorError>,
) -> (r: Option<SensorSample>)
    ensures
        r == spec_absorb(last, reading),
{
    match reading {
        Result::Ok(s) => Some(s),
        Result::Err(_) => last,
    }
}

/// Whether a periodic task that last ran at `last_run` is due at `now`.
pub open spec fn spec_due(now: u64, last_run: Option<u64>, period: u64) -> bool {
    match last_run {
        None => true,
        Some(l) => l <= now && now - l >= period,
    }
}

/// Cadence test shared by sensor sampling and telemetry reporting.
pub fn is_due(now: u64, last_run: Option<u64>, period: u64) -> (r: bool)
    ensures
        r == spec_due(now, last_run, period),
{
    match last_run {
        None => true,
        Some(l) => l <= now && now - l >= period,
    }
}

} // verus!
