//! The synchronized clock: the time record fetched at boot, its epoch
//! conversion, the bounded retry policy, and the clock state.

use vstd::arithmetic::mul::lemma_mul_inequality;
use vstd::prelude::*;

verus! {

/// Calendar fields of the time response.
#[derive(Clone, Copy, PartialEq, Eq, Structural, Debug)]
pub struct TimeRecord {
    pub day: u32,
    pub month: u32,
    pub year: u32,
    pub hour: u32,
    pub minute: u32,
    pub second: u32,
}

/// Every field of the record is within its calendar range.
pub open spec fn wf_time(r: TimeRecord) -> bool {
    &&& 1 <= r.day <= 31
    &&& 1 <= r.month <= 12
    &&& 1970 <= r.year <= 2099
    &&& r.hour <= 23
    &&& r.minute <= 59
    &&& r.second <= 59
}

/// Range check of a parsed record.
pub fn check_time_fields(r: &TimeRecord) -> (ok: bool)
    ensures
        ok == wf_time(*r),
{
    1 <= r.day && r.day <= 31 && 1 <= r.month && r.month <= 12 && 1970 <= r.year && r.year <= 2099
        && r.hour <= 23 && r.minute <= 59 && r.second <= 59
}

/// Whether a year in the supported range is a leap year (the supported
/// range crosses no century rule exception).
pub open spec fn spec_is_leap(y: int) -> bool {
    y % 4 == 0
}

/// Days of a year in the supported range.
pub open spec fn spec_days_in_year(y: int) -> int {
    if spec_is_leap(y) {
        366
    } else {
        365
    }
}

/// Days elapsed from the start of 1970 to the start of year `y`.
pub open spec fn spec_days_before_year(y: int) -> int
    recommends
        y >= 1970,
    decreases y - 1970,
{
    if y <= 1970 {
        0
    } else {
        spec_days_before_year(y - 1) + spec_days_in_year(y - 1)
    }
}

/// Days of month `m` of year `y`.
pub open spec fn spec_days_in_month(m: int, y: int) -> int {
    if m == 2 {
        if spec_is_leap(y) {
            29
        } else {
            28
        }
    } else if m == 4 || m == 6 || m == 9 || m == 11 {
        30
    } else {
        31
    }
}

/// Days elapsed from the start of year `y` to the start of month `m`.
pub open spec fn spec_days_before_month(m: int, y: int) -> int
    recommends
        1 <= m <= 12,
    decreases m,
{
    if m <= 1 {
        0
    } else {
        spec_days_before_month(m - 1, y) + spec_days_in_month(m - 1, y)
    }
}

/// Seconds elapsed from the Unix epoch to the instant the record names.
pub open spec fn spec_epoch(r: TimeRecord) -> int
    recommends
        wf_time(r),
{
    (spec_days_before_year(r.year as int) + spec_days_before_month(r.month as int, r.year as int)
        + r.day - 1) * 86400 + r.hour * 3600 + r.minute * 60 + r.second
}

/// Years contribute at most 366 days each.
pub proof fn lemma_days_before_year_bound(y: int)
    requires
        1970 <= y <= 2100,
    ensures
        0 <= spec_days_before_year(y) <= 366 * (y - 1970),
    decreases y - 1970,
{
    if y > 1970 {
        lemma_days_before_year_bound(y - 1);
    }
}

/// Months contribute at most 31 days each.
pub proof fn lemma_days_before_month_bound(m: int, y: int)
    requires
        1 <= m <= 12,
    ensures
        0 <= spec_days_before_month(m, y) <= 31 * (m - 1),
    decreases m,
{
    if m > 1 {
        lemma_days_before_month_bound(m - 1, y);
    }
}

/// The epoch value of every well-formed record stays far below the
/// 64-bit limit.
pub proof fn lemma_epoch_bound(r: TimeRecord)
    requires
        wf_time(r),
    ensures
        0 <= spec_epoch(r) < 4_200_000_000,
{
    lemma_days_before_year_bound(r.year as int);
    lemma_days_before_month_bound(r.month as int, r.year as int);
    let days = spec_days_before_year(r.year as int) + spec_days_before_month(
        r.month as int,
        r.year as int,
    ) + r.day - 1;
    assert(days <= 366 * 129 + 31 * 11 + 30);
    lemma_mul_inequality(days, 47585, 86400);
    lemma_mul_inequality(0, days, 86400);
}

/// Computes the epoch seconds of a record.
pub fn epoch_seconds(r: &TimeRecord) -> (e: u64)
    requires
        wf_time(*r),
    ensures
        e as int == spec_epoch(*r),
        e < 4_200_000_000,
{
    let mut days: u64 = 0;
    let mut y: u32 = 1970;
    while y < r.year
        invariant
            1970 <= y <= r.year <= 2099,
            days == spec_days_before_year(y as int),
            days <= 366 * (y - 1970),
        decreases r.year - y,
    {
        if y % 4 == 0 {
            days = days + 366;
        } else {
            days = days + 365;
        }
        y = y + 1;
    }
    let mut m: u32 = 1;
    while m < r.month
        invariant
            1 <= m <= r.month <= 12,
            1970 <= r.year <= 2099,
            days == spec_days_before_year(r.year as int) + spec_days_before_month(
                m as int,
                r.year as int,
            ),
            days <= 366 * 130 + 31 * 12,
        decreases r.month - m,
    {
        proof {
            lemma_days_before_year_bound(r.year as int);
            lemma_days_before_month_bound((m + 1) as int, r.year as int);
        }
        let dim: u32 = if m == 2 {
            if r.year % 4 == 0 {
                29
            } else {
                28
            }
        } else if m == 4 || m == 6 || m == 9 || m == 11 {
            30
        } else {
            31
        };
        days = days + dim as u64;
        m = m + 1;
    }
    proof {
        lemma_epoch_bound(*r);
    }
    (days + r.day as u64 - 1) * 86400 + r.hour as u64 * 3600 + r.minute as u64 * 60
        + r.second as u64
}

/// The local clock: the epoch value seeded at boot, and whether the
/// seed came from a successful synchronization.
#[derive(Clone, Copy, PartialEq, Eq, Structural, Debug)]
pub struct ClockState {
    pub epoch_seconds: u64,
    pub synced: bool,
}

/// Why synchronization failed.
#[derive(Clone, Copy, PartialEq, Eq, Structural, Debug)]
pub enum SyncError {
    /// Resolution, connection or transport failure.
    Network,
    /// The bounded wait elapsed.
    Timeout,
    /// A body arrived but is not a well-formed time record.
    Malformed,
}

/// The clock state a synchronization outcome leaves behind: a seeded,
/// synced clock on success; an unsynced clock showing the epoch start
/// on any failure, never a fabricated time.
pub fn apply_sync(outcome: &Result<TimeRecord, SyncError>) -> (c: ClockState)
    ensures
        outcome matches Ok(r) ==> (wf_time(*r) ==> c == (ClockState {
            epoch_seconds: spec_epoch(*r) as u64,
            synced: true,
        })) && (!wf_time(*r) ==> c == (ClockState { epoch_seconds: 0, synced: false })),
        outcome is Err ==> c == (ClockState { epoch_seconds: 0, synced: false }),
        c.synced ==> c.epoch_seconds < 4_200_000_000,
{
    match outcome {
        Ok(r) => {
            if check_time_fields(r) {
                let e = epoch_seconds(r);
                ClockState { epoch_seconds: e, synced: true }
            } else {
                ClockState { epoch_seconds: 0, synced: false }
            }
        },
        Err(_) => ClockState { epoch_seconds: 0, synced: false },
    }
}

/// How many synchronization attempts are made before the session gives
/// up and boots unsynced.
pub const SYNC_MAX_ATTEMPTS: u32 = 3;

/// Backoff before retry number `attempt` (counted from zero): doubling
/// delays for the bounded retry budget, nothing once it is spent.
pub open spec fn spec_backoff(attempt: u32) -> Option<u64> {
    if attempt == 0 {
        Some(500u64)
    } else if attempt == 1 {
        Some(1000u64)
    } else if attempt == 2 {
        Some(2000u64)
    } else {
        None
    }
}

/// Retry schedule of the boot-time synchronization.
pub fn sync_backoff_ms(attempt: u32) -> (r: Option<u64>)
    ensures
        r == spec_backoff(attempt),
        (attempt < SYNC_MAX_ATTEMPTS) == (r is Some),
{
    if attempt == 0 {
        Some(500)
    } else if attempt == 1 {
        Some(1000)
    } else if attempt == 2 {
        Some(2000)
    } else {
        None
    }
}

/// Seconds-of-day breakdown for the display.
#[derive(Clone, Copy, PartialEq, Eq, Structural, Debug)]
pub struct TimeOfDay {
    pub hour: u32,
    pub minute: u32,
    pub second: u32,
}

/// The time of day an epoch value names.
pub open spec fn spec_time_of_day(epoch: int) -> TimeOfDay
    recommends
        epoch >= 0,
{
    TimeOfDay {
        hour: ((epoch / 3600) % 24) as u32,
        minute: ((epoch / 60) % 60) as u32,
        second: (epoch % 60) as u32,
    }
}

/// Breaks an epoch value into the displayed time of day.
pub fn time_of_day(epoch: u64) -> (t: TimeOfDay)
    ensures
        t == spec_time_of_day(epoch as int),
        t.hour <= 23 && t.minute <= 59 && t.second <= 59,
{
    TimeOfDay {
        hour: ((epoch / 3600) % 24) as u32,
        minute: ((epoch / 60) % 60) as u32,
        second: (epoch % 60) as u32,
    }
}

} // verus!
