//! Telemetry records and their wire framing.
//!
//! A report carries the current epoch timestamp and the temperature in
//! decimal degrees; it is pushed best-effort and a failure is dropped,
//! never retried aggressively and never allowed to stall the loop.

use vstd::prelude::*;

use crate::temp::temp_in_range;
use crate::timejson::{push_digits, spec_dec};

verus! {

/// Reporting cadence in milliseconds.
pub const REPORT_PERIOD_MS: u64 = 30000;

/// Why a report was dropped.
#[derive(Clone, Copy, PartialEq, Eq, Structural, Debug)]
pub enum ReportError {
    /// The transport failed or timed out; the record is discarded.
    Transport,
}

/// One report: when, and how warm. Temperature in tenths of a degree.
#[derive(Clone, Copy, PartialEq, Eq, Structural, Debug)]
pub struct TelemetryRecord {
    pub epoch_seconds: u64,
    pub temperature: i32,
}

/// The bytes `{"datetime":`.
pub open spec fn lit_datetime() -> Seq<u8> {
    seq![123u8, 34, 100, 97, 116, 101, 116, 105, 109, 101, 34, 58]
}

/// The bytes `,"temperature":`.
pub open spec fn lit_temperature() -> Seq<u8> {
    seq![44u8, 34, 116, 101, 109, 112, 101, 114, 97, 116, 117, 114, 101, 34, 58]
}

/// Decimal-degree text of a temperature held in tenths: optional minus
/// sign, the whole degrees, a point, one tenths digit.
pub open spec fn spec_temp_text(t: int) -> Seq<u8>
    recommends
        temp_in_range(t),
{
    let a = if t < 0 {
        -t
    } else {
        t
    };
    let sign: Seq<u8> = if t < 0 {
        seq![45u8]
    } else {
        Seq::empty()
    };
    sign + spec_dec((a / 10) as nat) + seq![46u8, (48 + a % 10) as u8]
}

/// Appends the decimal-degree text of a temperature.
pub fn push_temp_text(out: &mut Vec<u8>, t: i32)
    requires
        temp_in_range(t as int),
    ensures
        final(out)@ == old(out)@ + spec_temp_text(t as int),
{
    let a: i32 = if t < 0 {
        -t
    } else {
        t
    };
    if t < 0 {
        out.push(45);
    }
    push_digits(out, (a / 10) as u64);
    out.push(46);
    out.push(48 + (a % 10) as u8);
    assert(out@ =~= old(out)@ + spec_temp_text(t as int));
}

/// The canonical body of a telemetry report.
pub open spec fn spec_telemetry_json(rec: TelemetryRecord) -> Seq<u8> {
    lit_datetime() + spec_dec(rec.epoch_seconds as nat) + lit_temperature() + spec_temp_text(
        rec.temperature as int,
    ) + seq![125u8]
}

/// Serializes a telemetry record as its report body.
pub fn encode_telemetry(rec: &TelemetryRecord) -> (out: Vec<u8>)
    requires
        temp_in_range(rec.temperature as int),
    ensures
        out@ == spec_telemetry_json(*rec),
{
    let mut out: Vec<u8> = Vec::new();
    out.push(123);
    out.push(34);
    out.push(100);
    out.push(97);
    out.push(116);
    out.push(101);
    out.push(116);
    out.push(105);
    out.push(109);
    out.push(101);
    out.push(34);
    out.push(58);
    assert(out@ =~= lit_datetime());
    push_digits(&mut out, rec.epoch_seconds);
    let ghost s2 = out@;
    out.push(44);
    out.push(34);
    out.push(116);
    out.push(101);
    out.push(109);
    out.push(112);
    out.push(101);
    out.push(114);
    out.push(97);
    out.push(116);
    out.push(117);
    out.push(114);
    out.push(101);
    out.push(34);
    out.push(58);
    assert(out@ =~= s2 + lit_temperature());
    push_temp_text(&mut out, rec.temperature);
    out.push(125);
    assert(out@ =~= spec_telemetry_json(*rec));
    out
}

} // verus!
