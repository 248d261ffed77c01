//! Decimal digits and digit runs inside byte strings.
//!
//! The time response and the telemetry report are framed as small JSON
//! bodies; both sides are built on one verified layer: canonical decimal
//! digit strings (no sign, no leading zero), locating digit runs in a
//! byte string, and reading a bounded value out of a run.

use vstd::arithmetic::div_mod::{lemma_fundamental_div_mod, lemma_multiply_divide_lt};
use vstd::prelude::*;

use crate::clock::{check_time_fields, wf_time, SyncError, TimeRecord};
use crate::store::bytes_eq;

verus! {

/// ASCII digit.
pub open spec fn is_digit(b: u8) -> bool {
    48 <= b <= 57
}

/// ASCII whitespace accepted between tokens of a response body.
pub open spec fn is_ws(b: u8) -> bool {
    b == 32 || b == 9 || b == 10 || b == 13
}

/// The canonical decimal digit string of `n`: most significant first,
/// no leading zero (zero itself is the single digit `0`).
pub open spec fn spec_dec(n: nat) -> Seq<u8>
    decreases n,
{
    if n < 10 {
        seq![(48 + n) as u8]
    } else {
        spec_dec(n / 10).push((48 + n % 10) as u8)
    }
}

/// Every byte of a canonical digit string is a digit, the string is
/// never empty, and a nonzero value never starts with `0`.
pub proof fn lemma_dec_shape(n: nat)
    ensures
        spec_dec(n).len() >= 1,
        forall|t: int| 0 <= t < spec_dec(n).len() ==> is_digit(#[trigger] spec_dec(n)[t]),
        n >= 1 ==> spec_dec(n)[0] != 48,
        n == 0 ==> spec_dec(n) == seq![48u8],
    decreases n,
{
    if n < 10 {
        assert(spec_dec(n) =~= seq![(48 + n) as u8]);
    } else {
        lemma_dec_shape(n / 10);
        assert(n / 10 >= 1) by {
            assert(n / 10 >= 1nat) by (nonlinear_arith)
                requires
                    n >= 10,
            ;
        }
    }
}

/// Length bounds of a canonical digit string for bounded values.
pub proof fn lemma_dec_len(n: nat)
    ensures
        n < 10 ==> spec_dec(n).len() == 1,
        n < 100 ==> spec_dec(n).len() <= 2,
        n < 1000 ==> spec_dec(n).len() <= 3,
        n < 10000 ==> spec_dec(n).len() <= 4,
        n < 100000 ==> spec_dec(n).len() <= 5,
    decreases n,
{
    if n >= 10 {
        lemma_dec_len(n / 10);
        if n < 100 {
            lemma_multiply_divide_lt(n as int, 10, 10);
        }
        if n < 1000 {
            lemma_multiply_divide_lt(n as int, 10, 100);
        }
        if n < 10000 {
            lemma_multiply_divide_lt(n as int, 10, 1000);
        }
        if n < 100000 {
            lemma_multiply_divide_lt(n as int, 10, 10000);
        }
    }
}

/// Appends the canonical digits of `n` to `out`.
pub fn push_digits(out: &mut Vec<u8>, n: u64)
    ensures
        final(out)@ == old(out)@ + spec_dec(n as nat),
    decreases n,
{
    if n < 10 {
        out.push(48 + n as u8);
        assert(out@ =~= old(out)@ + spec_dec(n as nat));
    } else {
        push_digits(out, n / 10);
        out.push(48 + (n % 10) as u8);
        assert(out@ =~= old(out)@ + spec_dec(n as nat));
    }
}

/// First position at or after `i` that is past every leading digit: the
/// end of the digit run starting at `i`.
pub open spec fn digit_run_end(s: Seq<u8>, i: int) -> int
    recommends
        0 <= i <= s.len(),
    decreases s.len() - i,
{
    if i < 0 || i >= s.len() || !is_digit(s[i]) {
        i
    } else {
        digit_run_end(s, i + 1)
    }
}

/// The run end is where the digits stop.
pub proof fn lemma_digit_run_end_eq(s: Seq<u8>, i: int, j: int)
    requires
        0 <= i <= j <= s.len(),
        forall|t: int| i <= t < j ==> is_digit(#[trigger] s[t]),
        j == s.len() || !is_digit(s[j]),
    ensures
        digit_run_end(s, i) == j,
    decreases j - i,
{
    if i < j {
        lemma_digit_run_end_eq(s, i + 1, j);
    }
}

/// Basic facts about a digit run's end.
pub proof fn lemma_digit_run_end_bounds(s: Seq<u8>, i: int)
    requires
        0 <= i <= s.len(),
    ensures
        i <= digit_run_end(s, i) <= s.len(),
        forall|t: int| i <= t < digit_run_end(s, i) ==> is_digit(#[trigger] s[t]),
        digit_run_end(s, i) == s.len() || !is_digit(s[digit_run_end(s, i)]),
    decreases s.len() - i,
{
    if i < s.len() && is_digit(s[i]) {
        lemma_digit_run_end_bounds(s, i + 1);
    }
}

/// The value of the digits `s[i..j]`, most significant first.
pub open spec fn digits_value(s: Seq<u8>, i: int, j: int) -> int
    recommends
        0 <= i <= j <= s.len(),
    decreases j - i,
{
    if j <= i {
        0
    } else {
        digits_value(s, i, j - 1) * 10 + (s[j - 1] - 48)
    }
}

/// A run of at most `k` digits is worth less than `10^k`, for the run
/// lengths the parser admits.
pub proof fn lemma_digits_value_bound(s: Seq<u8>, i: int, j: int)
    requires
        0 <= i <= j <= s.len(),
        forall|t: int| i <= t < j ==> is_digit(#[trigger] s[t]),
    ensures
        0 <= digits_value(s, i, j),
        j - i <= 1 ==> digits_value(s, i, j) < 10,
        j - i <= 2 ==> digits_value(s, i, j) < 100,
        j - i <= 3 ==> digits_value(s, i, j) < 1000,
        j - i <= 4 ==> digits_value(s, i, j) < 10000,
        j - i <= 5 ==> digits_value(s, i, j) < 100000,
    decreases j - i,
{
    if j > i {
        lemma_digits_value_bound(s, i, j - 1);
        assert(digits_value(s, i, j) == digits_value(s, i, j - 1) * 10 + (s[j - 1] - 48));
        if j - i <= 1 {
            lemma_digits_value_bound_step(s, i, j, 1);
        }
        if j - i <= 2 {
            lemma_digits_value_bound_step(s, i, j, 10);
        }
        if j - i <= 3 {
            lemma_digits_value_bound_step(s, i, j, 100);
        }
        if j - i <= 4 {
            lemma_digits_value_bound_step(s, i, j, 1000);
        }
        if j - i <= 5 {
            lemma_digits_value_bound_step(s, i, j, 10000);
        }
        assert(digits_value(s, i, j - 1) * 10 + (s[j - 1] - 48) >= 0) by (nonlinear_arith)
            requires
                digits_value(s, i, j - 1) >= 0,
                is_digit(s[j - 1]),
        ;
    }
}

/// One peeling step of the value bound: if the prefix is below `cap`,
/// the whole run is below `10 * cap`.
proof fn lemma_digits_value_bound_step(s: Seq<u8>, i: int, j: int, cap: int)
    requires
        0 <= i < j <= s.len(),
        forall|t: int| i <= t < j ==> is_digit(#[trigger] s[t]),
        digits_value(s, i, j - 1) < cap,
        digits_value(s, i, j - 1) >= 0,
        cap >= 1,
    ensures
        digits_value(s, i, j) < 10 * cap,
{
    assert(digits_value(s, i, j - 1) * 10 + (s[j - 1] - 48) < 10 * cap) by (nonlinear_arith)
        requires
            digits_value(s, i, j - 1) < cap,
            digits_value(s, i, j - 1) >= 0,
            s[j - 1] - 48 < 10,
            cap >= 1,
    ;
}

/// Reading the canonical digits of `n` back gives `n`: the digits at
/// `[i, i + |dec(n)|)` of a string that holds them there are worth `n`.
pub proof fn lemma_dec_value(s: Seq<u8>, i: int, n: nat)
    requires
        0 <= i,
        i + spec_dec(n).len() <= s.len(),
        s.subrange(i, i + spec_dec(n).len() as int) == spec_dec(n),
    ensures
        digits_value(s, i, i + spec_dec(n).len() as int) == n,
    decreases n,
{
    let len = spec_dec(n).len() as int;
    if n < 10 {
        assert(s[i] == spec_dec(n)[0]);
        assert(digits_value(s, i, i) == 0);
        assert(digits_value(s, i, i + 1) == s[i] - 48);
    } else {
        let head = spec_dec(n / 10);
        assert(spec_dec(n) == head.push((48 + n % 10) as u8));
        assert(s.subrange(i, i + head.len() as int) =~= head) by {
            assert(forall|t: int|
                0 <= t < head.len() ==> s.subrange(i, i + len)[t] == #[trigger] head[t]);
        }
        lemma_dec_value(s, i, n / 10);
        assert(digits_value(s, i, i + len) == digits_value(s, i, i + len - 1) * 10 + (s[i + len
            - 1] - 48));
        assert(s[i + len - 1] == spec_dec(n)[len - 1]);
        assert(spec_dec(n)[len - 1] == (48 + n % 10) as u8);
        lemma_fundamental_div_mod(n as int, 10);
    }
}

/// Reads the digit run starting at `i`: its value and its end. Nothing
/// to read when no digit stands at `i`; a run with a leading zero or
/// more than five digits is refused.
pub fn parse_number(s: &Vec<u8>, i: usize) -> (r: Option<(u32, usize)>)
    requires
        i <= s.len(),
    ensures
        ({
            let j = digit_run_end(s@, i as int);
            if j == i || (s@[i as int] == 48 && j > i + 1) || j - i > 5 {
                r is None
            } else {
                r == Some((digits_value(s@, i as int, j) as u32, j as usize))
            }
        }),
{
    proof {
        lemma_digit_run_end_bounds(s@, i as int);
    }
    let ghost jj = digit_run_end(s@, i as int);
    let mut k = i;
    while k < s.len() && 48 <= s[k] && s[k] <= 57
        invariant
            i <= k <= s.len(),
            forall|t: int| i <= t < k ==> is_digit(#[trigger] s@[t]),
        decreases s.len() - k,
    {
        k = k + 1;
    }
    proof {
        lemma_digit_run_end_eq(s@, i as int, k as int);
    }
    if k == i {
        return None;
    }
    if s[i] == 48 && k > i + 1 {
        return None;
    }
    if k - i > 5 {
        return None;
    }
    let mut acc: u32 = 0;
    let mut t = i;
    while t < k
        invariant
            i <= t <= k <= s.len(),
            k - i <= 5,
            forall|u: int| i <= u < k ==> is_digit(#[trigger] s@[u]),
            acc == digits_value(s@, i as int, t as int),
            acc < 100000,
        decreases k - t,
    {
        proof {
            lemma_digits_value_bound(s@, i as int, t + 1);
        }
        acc = acc * 10 + (s[t] - 48) as u32;
        t = t + 1;
    }
    Some((acc, k))
}

/// Strips ASCII whitespace out of a byte string.
pub open spec fn spec_strip_ws(s: Seq<u8>) -> Seq<u8>
    decreases s.len(),
{
    if s.len() == 0 {
        Seq::empty()
    } else if is_ws(s.last()) {
        spec_strip_ws(s.drop_last())
    } else {
        spec_strip_ws(s.drop_last()).push(s.last())
    }
}

/// Copies `s` without its whitespace bytes.
pub fn strip_ws(s: &Vec<u8>) -> (r: Vec<u8>)
    ensures
        r@ == spec_strip_ws(s@),
{
    let mut out: Vec<u8> = Vec::new();
    let mut i: usize = 0;
    proof {
        assert(s@.subrange(0, 0) =~= Seq::<u8>::empty());
    }
    while i < s.len()
        invariant
            i <= s.len(),
            out@ == spec_strip_ws(s@.subrange(0, i as int)),
        decreases s.len() - i,
    {
        let b = s[i];
        proof {
            assert(s@.subrange(0, i + 1).drop_last() =~= s@.subrange(0, i as int));
            assert(s@.subrange(0, i + 1).last() == s@[i as int]);
        }
        if !(b == 32 || b == 9 || b == 10 || b == 13) {
            out.push(b);
        }
        i = i + 1;
    }
    proof {
        assert(s@.subrange(0, s@.len() as int) =~= s@);
    }
    out
}

/// The bytes `{"date":{"day":`.
pub open spec fn lit_day() -> Seq<u8> {
    seq![123u8, 34, 100, 97, 116, 101, 34, 58, 123, 34, 100, 97, 121, 34, 58]
}

/// The bytes `,"month":`.
pub open spec fn lit_month() -> Seq<u8> {
    seq![44u8, 34, 109, 111, 110, 116, 104, 34, 58]
}

/// The bytes `,"year":`.
pub open spec fn lit_year() -> Seq<u8> {
    seq![44u8, 34, 121, 101, 97, 114, 34, 58]
}

/// The bytes `},"time":{"hour":`.
pub open spec fn lit_hour() -> Seq<u8> {
    seq![125u8, 44, 34, 116, 105, 109, 101, 34, 58, 123, 34, 104, 111, 117, 114, 34, 58]
}

/// The bytes `,"minute":`.
pub open spec fn lit_minute() -> Seq<u8> {
    seq![44u8, 34, 109, 105, 110, 117, 116, 101, 34, 58]
}

/// The bytes `,"second":`.
pub open spec fn lit_second() -> Seq<u8> {
    seq![44u8, 34, 115, 101, 99, 111, 110, 100, 34, 58]
}

/// The bytes `}}`.
pub open spec fn lit_end() -> Seq<u8> {
    seq![125u8, 125]
}

/// The canonical (whitespace-free) body of a time response: the nested
/// date and time objects with the six calendar fields in order.
pub open spec fn spec_time_json(r: TimeRecord) -> Seq<u8> {
    lit_day() + (spec_dec(r.day as nat) + (lit_month() + (spec_dec(r.month as nat) + (lit_year()
        + (spec_dec(r.year as nat) + (lit_hour() + (spec_dec(r.hour as nat) + (lit_minute() + (
    spec_dec(r.minute as nat) + (lit_second() + (spec_dec(r.second as nat) + lit_end())))))))))))
}

/// Appends `{"date":{"day":` to `out`.
fn push_lit_day(out: &mut Vec<u8>)
    ensures
        final(out)@ == old(out)@ + lit_day(),
{
    out.push(123);
    out.push(34);
    out.push(100);
    out.push(97);
    out.push(116);
    out.push(101);
    out.push(34);
    out.push(58);
    out.push(123);
    out.push(34);
    out.push(100);
    out.push(97);
    out.push(121);
    out.push(34);
    out.push(58);
    assert(out@ =~= old(out)@ + lit_day());
}

/// Appends `,"month":` to `out`.
fn push_lit_month(out: &mut Vec<u8>)
    ensures
        final(out)@ == old(out)@ + lit_month(),
{
    out.push(44);
    out.push(34);
    out.push(109);
    out.push(111);
    out.push(110);
    out.push(116);
    out.push(104);
    out.push(34);
    out.push(58);
    assert(out@ =~= old(out)@ + lit_month());
}

/// Appends `,"year":` to `out`.
fn push_lit_year(out: &mut Vec<u8>)
    ensures
        final(out)@ == old(out)@ + lit_year(),
{
    out.push(44);
    out.push(34);
    out.push(121);
    out.push(101);
    out.push(97);
    out.push(114);
    out.push(34);
    out.push(58);
    assert(out@ =~= old(out)@ + lit_year());
}

/// Appends `},"time":{"hour":` to `out`.
fn push_lit_hour(out: &mut Vec<u8>)
    ensures
        final(out)@ == old(out)@ + lit_hour(),
{
    out.push(125);
    out.push(44);
    out.push(34);
    out.push(116);
    out.push(105);
    out.push(109);
    out.push(101);
    out.push(34);
    out.push(58);
    out.push(123);
    out.push(34);
    out.push(104);
    out.push(111);
    out.push(117);
    out.push(114);
    out.push(34);
    out.push(58);
    assert(out@ =~= old(out)@ + lit_hour());
}

/// Appends `,"minute":` to `out`.
fn push_lit_minute(out: &mut Vec<u8>)
    ensures
        final(out)@ == old(out)@ + lit_minute(),
{
    out.push(44);
    out.push(34);
    out.push(109);
    out.push(105);
    out.push(110);
    out.push(117);
    out.push(116);
    out.push(101);
    out.push(34);
    out.push(58);
    assert(out@ =~= old(out)@ + lit_minute());
}

/// Appends `,"second":` to `out`.
fn push_lit_second(out: &mut Vec<u8>)
    ensures
        final(out)@ == old(out)@ + lit_second(),
{
    out.push(44);
    out.push(34);
    out.push(115);
    out.push(101);
    out.push(99);
    out.push(111);
    out.push(110);
    out.push(100);
    out.push(34);
    out.push(58);
    assert(out@ =~= old(out)@ + lit_second());
}

/// Serializes a time record as its canonical response body.
#[verifier::rlimit(100)]
pub fn encode_time_json(r: &TimeRecord) -> (out: Vec<u8>)
    ensures
        out@ == spec_time_json(*r),
{
    let mut out: Vec<u8> = Vec::new();
    push_lit_day(&mut out);
    let ghost s1 = out@;
    push_digits(&mut out, r.day as u64);
    let ghost s2 = out@;
    push_lit_month(&mut out);
    let ghost s3 = out@;
    push_digits(&mut out, r.month as u64);
    let ghost s4 = out@;
    push_lit_year(&mut out);
    let ghost s5 = out@;
    push_digits(&mut out, r.year as u64);
    let ghost s6 = out@;
    push_lit_hour(&mut out);
    let ghost s7 = out@;
    push_digits(&mut out, r.hour as u64);
    let ghost s8 = out@;
    push_lit_minute(&mut out);
    let ghost s9 = out@;
    push_digits(&mut out, r.minute as u64);
    let ghost s10 = out@;
    push_lit_second(&mut out);
    let ghost s11 = out@;
    push_digits(&mut out, r.second as u64);
    let ghost s12 = out@;
    out.push(125);
    out.push(125);
    proof {
        let d1 = spec_dec(r.day as nat);
        let d2 = spec_dec(r.month as nat);
        let d3 = spec_dec(r.year as nat);
        let d4 = spec_dec(r.hour as nat);
        let d5 = spec_dec(r.minute as nat);
        let d6 = spec_dec(r.second as nat);
        assert(out@ =~= s12 + lit_end());
        let t12 = d6 + lit_end();
        assert(s12 + lit_end() =~= s11 + t12);
        let t11 = lit_second() + t12;
        assert(s11 + t12 =~= s10 + t11);
        let t10 = d5 + t11;
        assert(s10 + t11 =~= s9 + t10);
        let t9 = lit_minute() + t10;
        assert(s9 + t10 =~= s8 + t9);
        let t8 = d4 + t9;
        assert(s8 + t9 =~= s7 + t8);
        let t7 = lit_hour() + t8;
        assert(s7 + t8 =~= s6 + t7);
        let t6 = d3 + t7;
        assert(s6 + t7 =~= s5 + t6);
        let t5 = lit_year() + t6;
        assert(s5 + t6 =~= s4 + t5);
        let t4 = d2 + t5;
        assert(s4 + t5 =~= s3 + t4);
        let t3 = lit_month() + t4;
        assert(s3 + t4 =~= s2 + t3);
        let t2 = d1 + t3;
        assert(s2 + t3 =~= s1 + t2);
        assert(s1 =~= lit_day());
        assert(out@ == lit_day() + t2);
    }
    out
}

/// A digit run the parser admits as one field: nonempty, no leading
/// zero, at most five digits.
pub open spec fn field_ok(s: Seq<u8>, a: int, b: int) -> bool {
    !(b == a || (s[a] == 48 && b > a + 1) || b - a > 5)
}

/// The six field values a byte string yields at the offsets its fixed
/// literals dictate, when every digit run there is admissible.
pub open spec fn spec_extract(s: Seq<u8>) -> Option<TimeRecord> {
    let p1 = 15int;
    let b1 = digit_run_end(s, p1);
    let p2 = b1 + 9;
    let b2 = digit_run_end(s, p2);
    let p3 = b2 + 8;
    let b3 = digit_run_end(s, p3);
    let p4 = b3 + 17;
    let b4 = digit_run_end(s, p4);
    let p5 = b4 + 10;
    let b5 = digit_run_end(s, p5);
    let p6 = b5 + 10;
    let b6 = digit_run_end(s, p6);
    if field_ok(s, p1, b1) && field_ok(s, p2, b2) && field_ok(s, p3, b3) && field_ok(s, p4, b4)
        && field_ok(s, p5, b5) && field_ok(s, p6, b6) {
        Some(
            TimeRecord {
                day: digits_value(s, p1, b1) as u32,
                month: digits_value(s, p2, b2) as u32,
                year: digits_value(s, p3, b3) as u32,
                hour: digits_value(s, p4, b4) as u32,
                minute: digits_value(s, p5, b5) as u32,
                second: digits_value(s, p6, b6) as u32,
            },
        )
    } else {
        None
    }
}

/// What a whitespace-free body parses to: its extracted record, if it
/// is in range and re-serializes to exactly that body.
pub open spec fn spec_parse_time(s: Seq<u8>) -> Option<TimeRecord> {
    if s.len() > 100 {
        None
    } else {
        match spec_extract(s) {
            Some(rec) => if wf_time(rec) && s == spec_time_json(rec) {
                Some(rec)
            } else {
                None
            },
            None => None,
        }
    }
}

/// Reads one field at position `p` when `p` is still inside `s`.
fn parse_field(s: &Vec<u8>, p: usize) -> (r: Option<(u32, usize)>)
    ensures
        ({
            let b = digit_run_end(s@, p as int);
            if p <= s.len() && field_ok(s@, p as int, b) {
                r == Some((digits_value(s@, p as int, b) as u32, b as usize))
            } else {
                r is None
            }
        }),
        r matches Some(x) ==> p <= x.1 <= s.len() && x.1 as int == digit_run_end(s@, p as int),
{
    if p > s.len() {
        return None;
    }
    proof {
        lemma_digit_run_end_bounds(s@, p as int);
    }
    parse_number(s, p)
}

/// Reads the six fields at their fixed offsets.
#[verifier::rlimit(100)]
fn extract_fields(s: &Vec<u8>) -> (r: Option<TimeRecord>)
    requires
        s.len() <= 100,
    ensures
        r == spec_extract(s@),
{
    let (v1, b1) = match parse_field(s, 15) {
        Some(x) => x,
        None => {
            return None;
        },
    };
    let (v2, b2) = match parse_field(s, b1 + 9) {
        Some(x) => x,
        None => {
            return None;
        },
    };
    let (v3, b3) = match parse_field(s, b2 + 8) {
        Some(x) => x,
        None => {
            return None;
        },
    };
    let (v4, b4) = match parse_field(s, b3 + 17) {
        Some(x) => x,
        None => {
            return None;
        },
    };
    let (v5, b5) = match parse_field(s, b4 + 10) {
        Some(x) => x,
        None => {
            return None;
        },
    };
    let (v6, _b6) = match parse_field(s, b5 + 10) {
        Some(x) => x,
        None => {
            return None;
        },
    };
    Some(TimeRecord { day: v1, month: v2, year: v3, hour: v4, minute: v5, second: v6 })
}

/// Extracts the record a stripped body holds, when it is exactly the
/// canonical serialization of a well-formed record.
#[verifier::rlimit(100)]
fn parse_core(s: &Vec<u8>) -> (r: Option<TimeRecord>)
    ensures
        r == spec_parse_time(s@),
{
    if s.len() > 100 {
        return None;
    }
    let rec = match extract_fields(s) {
        Some(rec) => rec,
        None => {
            return None;
        },
    };
    if !check_time_fields(&rec) {
        return None;
    }
    let enc = encode_time_json(&rec);
    if bytes_eq(s, &enc) {
        Some(rec)
    } else {
        None
    }
}

/// Splits a region of `s` that holds a concatenation into its parts.
proof fn lemma_peel(s: Seq<u8>, off: int, x: Seq<u8>, y: Seq<u8>)
    requires
        0 <= off <= s.len(),
        s.subrange(off, s.len() as int) == x + y,
    ensures
        off + x.len() + y.len() == s.len(),
        s.subrange(off, off + x.len() as int) == x,
        s.subrange(off + x.len() as int, s.len() as int) == y,
{
    assert(s.subrange(off, s.len() as int) == x + y);
    assert(s.subrange(off, s.len() as int).len() == (x + y).len());
    assert((x + y).len() == x.len() + y.len());
    assert(s.subrange(off, s.len() as int).len() == s.len() - off);
    assert(s.len() - off == x.len() + y.len());
    assert forall|t: int| 0 <= t < x.len() implies s.subrange(off, off + x.len() as int)[t] == x[t]
    by {
        assert(x[t] == (x + y)[t]);
        assert((x + y)[t] == s.subrange(off, s.len() as int)[t]);
    }
    assert(s.subrange(off, off + x.len() as int) =~= x);
    assert forall|t: int|
        0 <= t < y.len() implies s.subrange(off + x.len() as int, s.len() as int)[t] == y[t] by {
        assert(y[t] == (x + y)[t + x.len()]);
        assert((x + y)[t + x.len()] == s.subrange(off, s.len() as int)[t + x.len()]);
    }
    assert(s.subrange(off + x.len() as int, s.len() as int) =~= y);
}

/// One canonical field inside a larger string: its digit run ends where
/// the digits of its value end, it parses back to the value, and the
/// parser admits it.
proof fn lemma_field_at(s: Seq<u8>, p: int, n: nat)
    requires
        0 <= p,
        n < 100000,
        p + spec_dec(n).len() <= s.len(),
        s.subrange(p, p + spec_dec(n).len() as int) == spec_dec(n),
        p + spec_dec(n).len() == s.len() || !is_digit(s[p + spec_dec(n).len()]),
    ensures
        digit_run_end(s, p) == p + spec_dec(n).len(),
        digits_value(s, p, p + spec_dec(n).len() as int) == n,
        field_ok(s, p, p + spec_dec(n).len()),
{
    let q = p + spec_dec(n).len() as int;
    lemma_dec_shape(n);
    lemma_dec_len(n);
    assert forall|t: int| p <= t < q implies is_digit(s[t]) by {
        assert(s[t] == s.subrange(p, q)[t - p]);
    }
    lemma_digit_run_end_eq(s, p, q);
    lemma_dec_value(s, p, n);
    assert(s[p] == spec_dec(n)[0]);
    if s[p] == 48 {
        assert(n == 0);
        assert(q == p + 1);
    }
}

/// Where each field of a canonical body stands: the digit positions
/// implied by the fixed literals, with a non-digit byte after each run.
pub open spec fn json_offsets_ok(s: Seq<u8>, rec: TimeRecord) -> bool {
    let d1 = spec_dec(rec.day as nat);
    let d2 = spec_dec(rec.month as nat);
    let d3 = spec_dec(rec.year as nat);
    let d4 = spec_dec(rec.hour as nat);
    let d5 = spec_dec(rec.minute as nat);
    let d6 = spec_dec(rec.second as nat);
    let q1 = 15 + d1.len() as int;
    let q2 = q1 + 9 + d2.len();
    let q3 = q2 + 8 + d3.len();
    let q4 = q3 + 17 + d4.len();
    let q5 = q4 + 10 + d5.len();
    let q6 = q5 + 10 + d6.len();
    &&& s.len() == q6 + 2
    &&& s.subrange(15, q1) == d1
    &&& s.subrange(q1 + 9, q2) == d2
    &&& s.subrange(q2 + 8, q3) == d3
    &&& s.subrange(q3 + 17, q4) == d4
    &&& s.subrange(q4 + 10, q5) == d5
    &&& s.subrange(q5 + 10, q6) == d6
    &&& !is_digit(s[q1])
    &&& !is_digit(s[q2])
    &&& !is_digit(s[q3])
    &&& !is_digit(s[q4])
    &&& !is_digit(s[q5])
    &&& !is_digit(s[q6])
}

/// First half of the canonical split: the date fields.
#[verifier::rlimit(100)]
proof fn lemma_json_offsets_a(s: Seq<u8>, rec: TimeRecord)
    requires
        s == spec_time_json(rec),
    ensures
        ({
            let d1 = spec_dec(rec.day as nat);
            let d2 = spec_dec(rec.month as nat);
            let d3 = spec_dec(rec.year as nat);
            let q1 = 15 + d1.len() as int;
            let q2 = q1 + 9 + d2.len();
            let q3 = q2 + 8 + d3.len();
            &&& q3 + 17 <= s.len()
            &&& s.subrange(15, q1) == d1
            &&& s.subrange(q1 + 9, q2) == d2
            &&& s.subrange(q2 + 8, q3) == d3
            &&& !is_digit(s[q1])
            &&& !is_digit(s[q2])
            &&& !is_digit(s[q3])
            &&& s.subrange(q3 + 17, s.len() as int) == spec_dec(rec.hour as nat) + (lit_minute()
                + (spec_dec(rec.minute as nat) + (lit_second() + (spec_dec(rec.second as nat)
                + lit_end()))))
        }),
{
    let l1 = lit_day();
    let l2 = lit_month();
    let l3 = lit_year();
    let l4 = lit_hour();
    let l5 = lit_minute();
    let l6 = lit_second();
    let l7 = lit_end();
    let d1 = spec_dec(rec.day as nat);
    let d2 = spec_dec(rec.month as nat);
    let d3 = spec_dec(rec.year as nat);
    let d4 = spec_dec(rec.hour as nat);
    let d5 = spec_dec(rec.minute as nat);
    let d6 = spec_dec(rec.second as nat);
    assert(s.subrange(0, s.len() as int) =~= s);
    lemma_peel(s, 0, l1, d1 + (l2 + (d2 + (l3 + (d3 + (l4 + (d4 + (l5 + (d5 + (l6 + (d6
        + l7)))))))))));
    let p1 = l1.len() as int;
    lemma_peel(s, p1, d1, l2 + (d2 + (l3 + (d3 + (l4 + (d4 + (l5 + (d5 + (l6 + (d6 + l7))))))))));
    let q1 = p1 + d1.len() as int;
    lemma_peel(s, q1, l2, d2 + (l3 + (d3 + (l4 + (d4 + (l5 + (d5 + (l6 + (d6 + l7)))))))));
    let p2 = q1 + l2.len() as int;
    lemma_peel(s, p2, d2, l3 + (d3 + (l4 + (d4 + (l5 + (d5 + (l6 + (d6 + l7))))))));
    let q2 = p2 + d2.len() as int;
    lemma_peel(s, q2, l3, d3 + (l4 + (d4 + (l5 + (d5 + (l6 + (d6 + l7)))))));
    let p3 = q2 + l3.len() as int;
    lemma_peel(s, p3, d3, l4 + (d4 + (l5 + (d5 + (l6 + (d6 + l7))))));
    let q3 = p3 + d3.len() as int;
    lemma_peel(s, q3, l4, d4 + (l5 + (d5 + (l6 + (d6 + l7)))));
    assert(s[q1] == l2[0] && l2[0] == 44) by {
        assert(s.subrange(q1, q1 + l2.len() as int)[0] == l2[0]);
    }
    assert(s[q2] == l3[0] && l3[0] == 44) by {
        assert(s.subrange(q2, q2 + l3.len() as int)[0] == l3[0]);
    }
    assert(s[q3] == l4[0] && l4[0] == 125) by {
        assert(s.subrange(q3, q3 + l4.len() as int)[0] == l4[0]);
    }
}

/// Second half of the canonical split: the time fields.
#[verifier::rlimit(100)]
proof fn lemma_json_offsets_b(s: Seq<u8>, rec: TimeRecord, p4: int)
    requires
        0 <= p4 <= s.len(),
        s.subrange(p4, s.len() as int) == spec_dec(rec.hour as nat) + (lit_minute() + (spec_dec(
            rec.minute as nat,
        ) + (lit_second() + (spec_dec(rec.second as nat) + lit_end())))),
    ensures
        ({
            let d4 = spec_dec(rec.hour as nat);
            let d5 = spec_dec(rec.minute as nat);
            let d6 = spec_dec(rec.second as nat);
            let q4 = p4 + d4.len() as int;
            let q5 = q4 + 10 + d5.len();
            let q6 = q5 + 10 + d6.len();
            &&& s.len() == q6 + 2
            &&& s.subrange(p4, q4) == d4
            &&& s.subrange(q4 + 10, q5) == d5
            &&& s.subrange(q5 + 10, q6) == d6
            &&& !is_digit(s[q4])
            &&& !is_digit(s[q5])
            &&& !is_digit(s[q6])
        }),
{
    let l5 = lit_minute();
    let l6 = lit_second();
    let l7 = lit_end();
    let d4 = spec_dec(rec.hour as nat);
    let d5 = spec_dec(rec.minute as nat);
    let d6 = spec_dec(rec.second as nat);
    lemma_peel(s, p4, d4, l5 + (d5 + (l6 + (d6 + l7))));
    let q4 = p4 + d4.len() as int;
    lemma_peel(s, q4, l5, d5 + (l6 + (d6 + l7)));
    let p5 = q4 + l5.len() as int;
    lemma_peel(s, p5, d5, l6 + (d6 + l7));
    let q5 = p5 + d5.len() as int;
    lemma_peel(s, q5, l6, d6 + l7);
    let p6 = q5 + l6.len() as int;
    lemma_peel(s, p6, d6, l7);
    let q6 = p6 + d6.len() as int;
    assert(s.subrange(q6, s.len() as int) == l7);
    assert(s[q4] == l5[0] && l5[0] == 44) by {
        assert(s.subrange(q4, q4 + l5.len() as int)[0] == l5[0]);
    }
    assert(s[q5] == l6[0] && l6[0] == 44) by {
        assert(s.subrange(q5, q5 + l6.len() as int)[0] == l6[0]);
    }
    assert(s[q6] == l7[0] && l7[0] == 125) by {
        assert(s.subrange(q6, q6 + l7.len() as int)[0] == l7[0]);
    }
}

/// A canonical body splits at the offsets its literals dictate.
#[verifier::rlimit(100)]
proof fn lemma_json_offsets(s: Seq<u8>, rec: TimeRecord)
    requires
        s == spec_time_json(rec),
    ensures
        json_offsets_ok(s, rec),
{
    lemma_json_offsets_a(s, rec);
    let d1 = spec_dec(rec.day as nat);
    let d2 = spec_dec(rec.month as nat);
    let d3 = spec_dec(rec.year as nat);
    let q3 = 15 + d1.len() as int + 9 + d2.len() + 8 + d3.len();
    lemma_json_offsets_b(s, rec, q3 + 17);
}

/// The parser accepts every canonical body: stripping yields the record
/// back, for every well-formed record.
#[verifier::rlimit(100)]
pub proof fn lemma_parse_canonical(s: Seq<u8>, rec: TimeRecord)
    requires
        wf_time(rec),
        s == spec_time_json(rec),
    ensures
        spec_parse_time(s) == Some(rec),
{
    lemma_json_offsets(s, rec);
    let d1 = spec_dec(rec.day as nat);
    let d2 = spec_dec(rec.month as nat);
    let d3 = spec_dec(rec.year as nat);
    let d4 = spec_dec(rec.hour as nat);
    let d5 = spec_dec(rec.minute as nat);
    let d6 = spec_dec(rec.second as nat);
    lemma_dec_len(rec.day as nat);
    lemma_dec_len(rec.month as nat);
    lemma_dec_len(rec.year as nat);
    lemma_dec_len(rec.hour as nat);
    lemma_dec_len(rec.minute as nat);
    lemma_dec_len(rec.second as nat);
    let q1 = 15 + d1.len() as int;
    let q2 = q1 + 9 + d2.len() as int;
    let q3 = q2 + 8 + d3.len() as int;
    let q4 = q3 + 17 + d4.len() as int;
    let q5 = q4 + 10 + d5.len() as int;
    let q6 = q5 + 10 + d6.len() as int;
    lemma_field_at(s, 15, rec.day as nat);
    lemma_field_at(s, q1 + 9, rec.month as nat);
    lemma_field_at(s, q2 + 8, rec.year as nat);
    lemma_field_at(s, q3 + 17, rec.hour as nat);
    lemma_field_at(s, q4 + 10, rec.minute as nat);
    lemma_field_at(s, q5 + 10, rec.second as nat);
    assert(s.len() <= 100);
    assert(spec_parse_time(s) == Some(rec));
}

/// Parses the body of a time response: whitespace between tokens is
/// tolerated, anything else that deviates from the canonical nested
/// date/time object with in-range fields is malformed. The parser
/// accepts a body exactly when, stripped of whitespace, it is the
/// canonical serialization of a well-formed record, and then returns
/// that record.
pub fn parse_time_response(body: &Vec<u8>) -> (r: Result<TimeRecord, SyncError>)
    ensures
        r matches Ok(rec) ==> wf_time(rec) && spec_strip_ws(body@) == spec_time_json(rec),
        forall|rec0: TimeRecord|
            wf_time(rec0) && spec_strip_ws(body@) == spec_time_json(rec0) ==> r == Ok::<
                TimeRecord,
                SyncError,
            >(rec0),
        r matches Err(e) ==> e == SyncError::Malformed,
{
    let stripped = strip_ws(body);
    let out = parse_core(&stripped);
    proof {
        assert forall|rec0: TimeRecord|
            wf_time(rec0) && spec_strip_ws(body@) == spec_time_json(rec0) implies spec_parse_time(
            stripped@,
        ) == Some(rec0) by {
            lemma_parse_canonical(stripped@, rec0);
        }
    }
    match out {
        Some(rec) => Ok(rec),
        None => Err(SyncError::Malformed),
    }
}

} // verus!

