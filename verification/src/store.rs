//! The persisted threshold record and its store.
//!
//! The thresholds live in a fixed twelve-byte record at a well-known
//! offset of a byte-addressable non-volatile memory: two little-endian
//! 32-bit fields (each threshold biased by the lower end of the sensor
//! range) followed by a little-endian 32-bit checksum that doubles as a
//! magic marker. A record that is missing, fails the checksum, or holds
//! out-of-range or unordered values degrades to the built-in default;
//! a commit writes the record, reads it back and compares before it
//! reports success.

use vstd::prelude::*;

use crate::temp::{spec_default_config, temp_in_range, ThresholdConfig, TEMP_MIN};

verus! {

/// Length in bytes of the persisted record.
pub const RECORD_LEN: usize = 12;

/// Constant folded into the checksum so that a blank or erased region
/// never passes as a valid record.
pub const CHECK_MAGIC: u32 = 0x5AC3_0001;

/// Why a commit failed.
#[derive(Clone, Copy, PartialEq, Eq, Structural, Debug)]
pub enum StoreError {
    /// The read-back after the write did not match what was written.
    WriteVerifyMismatch,
    /// The storage medium did not respond.
    DeviceUnavailable,
}

/// The four little-endian bytes of a 32-bit value.
pub open spec fn spec_le32(v: u32) -> Seq<u8> {
    seq![
        (v & 0xff) as u8,
        ((v >> 8) & 0xff) as u8,
        ((v >> 16) & 0xff) as u8,
        ((v >> 24) & 0xff) as u8,
    ]
}

/// The 32-bit value held little-endian at offset `i` of `s`.
pub open spec fn spec_from_le_at(s: Seq<u8>, i: int) -> u32
    recommends
        0 <= i,
        i + 4 <= s.len(),
{
    (s[i] as u32) | ((s[i + 1] as u32) << 8) | ((s[i + 2] as u32) << 16) | ((s[i + 3] as u32)
        << 24)
}

/// Reading back the four little-endian bytes of `v` yields `v`.
pub proof fn lemma_le32_round_trip(v: u32)
    ensures
        spec_from_le_at(spec_le32(v), 0) == v,
{
    assert((((v & 0xff) as u8) as u32) | ((((v >> 8) & 0xff) as u8) as u32) << 8 | ((((v >> 16)
        & 0xff) as u8) as u32) << 16 | ((((v >> 24) & 0xff) as u8) as u32) << 24 == v)
        by (bit_vector);
}

/// Appends the four little-endian bytes of `v` to `out`.
pub fn push_le32(out: &mut Vec<u8>, v: u32)
    ensures
        final(out)@ == old(out)@ + spec_le32(v),
{
    out.push((v & 0xff) as u8);
    out.push(((v >> 8) & 0xff) as u8);
    out.push(((v >> 16) & 0xff) as u8);
    out.push(((v >> 24) & 0xff) as u8);
    assert(out@ =~= old(out)@ + spec_le32(v));
}

/// Reads the 32-bit value held little-endian at offset `i`.
pub fn read_le32(bytes: &Vec<u8>, i: usize) -> (r: u32)
    requires
        i + 4 <= bytes.len(),
    ensures
        r == spec_from_le_at(bytes@, i as int),
{
    (bytes[i] as u32) | ((bytes[i + 1] as u32) << 8) | ((bytes[i + 2] as u32) << 16) | ((bytes[i
        + 3] as u32) << 24)
}

/// Sum of the bytes of `s`.
pub open spec fn spec_byte_sum(s: Seq<u8>) -> int
    decreases s.len(),
{
    if s.len() == 0 {
        0
    } else {
        spec_byte_sum(s.drop_last()) + s.last()
    }
}

/// The byte sum never exceeds 255 per byte.
pub proof fn lemma_byte_sum_bounds(s: Seq<u8>)
    ensures
        0 <= spec_byte_sum(s) <= 255 * s.len(),
    decreases s.len(),
{
    if s.len() > 0 {
        lemma_byte_sum_bounds(s.drop_last());
    }
}

/// Checksum of a payload: its byte sum folded with the magic marker.
pub open spec fn spec_checksum(s: Seq<u8>) -> int {
    spec_byte_sum(s) + CHECK_MAGIC
}

/// Computes the checksum of the first `n` bytes of `bytes`.
pub fn checksum_of(bytes: &Vec<u8>, n: usize) -> (r: u32)
    requires
        n <= bytes.len(),
        n <= 8,
    ensures
        r == spec_checksum(bytes@.subrange(0, n as int)),
{
    let mut acc: u32 = 0;
    let mut i: usize = 0;
    proof {
        assert(bytes@.subrange(0, 0) =~= Seq::<u8>::empty());
    }
    while i < n
        invariant
            i <= n,
            n <= bytes.len(),
            n <= 8,
            acc == spec_byte_sum(bytes@.subrange(0, i as int)),
            acc <= 255 * i,
        decreases n - i,
    {
        proof {
            assert(bytes@.subrange(0, i + 1).drop_last() =~= bytes@.subrange(0, i as int));
            assert(bytes@.subrange(0, i + 1).last() == bytes@[i as int]);
        }
        acc = acc + (bytes[i] as u32);
        i = i + 1;
    }
    acc + CHECK_MAGIC
}

/// The serialized record of a configuration: the two biased thresholds,
/// then the checksum of those eight bytes.
pub open spec fn spec_encode_record(cfg: ThresholdConfig) -> Seq<u8>
    recommends
        cfg.wf(),
{
    let payload = spec_le32((cfg.min - TEMP_MIN) as u32) + spec_le32((cfg.max - TEMP_MIN) as u32);
    payload + spec_le32(spec_checksum(payload) as u32)
}

/// What a byte region decodes to: the configuration it holds, or
/// nothing when the length, checksum, range or ordering is wrong.
pub open spec fn spec_decode_record(s: Seq<u8>) -> Option<ThresholdConfig> {
    if s.len() != RECORD_LEN {
        None
    } else {
        let m = spec_from_le_at(s, 0);
        let x = spec_from_le_at(s, 4);
        let c = spec_from_le_at(s, 8);
        if c != spec_checksum(s.subrange(0, 8)) {
            None
        } else {
            let min = m + TEMP_MIN;
            let max = x + TEMP_MIN;
            if temp_in_range(min) && temp_in_range(max) && min <= max {
                Some(ThresholdConfig { min: min as i32, max: max as i32 })
            } else {
                None
            }
        }
    }
}

/// Serializes a configuration into its fixed record.
pub fn encode_record(cfg: &ThresholdConfig) -> (r: Vec<u8>)
    requires
        cfg.wf(),
    ensures
        r@ == spec_encode_record(*cfg),
        r@.len() == RECORD_LEN,
{
    let mut out: Vec<u8> = Vec::new();
    push_le32(&mut out, (cfg.min - TEMP_MIN) as u32);
    push_le32(&mut out, (cfg.max - TEMP_MIN) as u32);
    let ghost payload = out@;
    let c = checksum_of(&out, 8);
    proof {
        assert(out@.subrange(0, 8) =~= payload);
    }
    push_le32(&mut out, c);
    out
}

/// Parses a byte region as a threshold record.
pub fn decode_record(bytes: &Vec<u8>) -> (r: Option<ThresholdConfig>)
    ensures
        r == spec_decode_record(bytes@),
{
    if bytes.len() != RECORD_LEN {
        return None;
    }
    let m = read_le32(bytes, 0);
    let x = read_le32(bytes, 4);
    let c = read_le32(bytes, 8);
    let want = checksum_of(bytes, 8);
    if c != want {
        return None;
    }
    if m > (850 - TEMP_MIN) as u32 || x > (850 - TEMP_MIN) as u32 {
        return None;
    }
    let min: i32 = m as i32 + TEMP_MIN;
    let max: i32 = x as i32 + TEMP_MIN;
    if min <= max {
        Some(ThresholdConfig { min, max })
    } else {
        None
    }
}

/// Encoding then decoding a well-formed configuration gives it back.
pub proof fn lemma_record_round_trip(cfg: ThresholdConfig)
    requires
        cfg.wf(),
    ensures
        spec_decode_record(spec_encode_record(cfg)) == Some(cfg),
{
    let mv = (cfg.min - TEMP_MIN) as u32;
    let xv = (cfg.max - TEMP_MIN) as u32;
    let payload = spec_le32(mv) + spec_le32(xv);
    let cv = spec_checksum(payload) as u32;
    let enc = spec_encode_record(cfg);
    lemma_byte_sum_bounds(payload);
    assert(enc.len() == RECORD_LEN);
    assert(enc.subrange(0, 4) =~= spec_le32(mv));
    assert(enc.subrange(4, 8) =~= spec_le32(xv));
    assert(enc.subrange(8, 12) =~= spec_le32(cv));
    assert(enc.subrange(0, 8) =~= payload);
    lemma_le32_round_trip(mv);
    lemma_le32_round_trip(xv);
    lemma_le32_round_trip(cv);
    lemma_from_le_at_shift(enc, 0, spec_le32(mv));
    lemma_from_le_at_shift(enc, 4, spec_le32(xv));
    lemma_from_le_at_shift(enc, 8, spec_le32(cv));
}

/// Reading a 32-bit value out of a larger region equals reading it out
/// of the four bytes alone.
pub proof fn lemma_from_le_at_shift(s: Seq<u8>, i: int, b: Seq<u8>)
    requires
        0 <= i,
        i + 4 <= s.len(),
        b.len() == 4,
        s.subrange(i, i + 4) == b,
    ensures
        spec_from_le_at(s, i) == spec_from_le_at(b, 0),
{
    assert(s[i] == b[0]);
    assert(s[i + 1] == b[1]);
    assert(s[i + 2] == b[2]);
    assert(s[i + 3] == b[3]);
}

/// Compares two byte vectors.
pub fn bytes_eq(a: &Vec<u8>, b: &Vec<u8>) -> (r: bool)
    ensures
        r == (a@ == b@),
{
    if a.len() != b.len() {
        proof {
            assert(a@ != b@);
        }
        return false;
    }
    let mut i: usize = 0;
    while i < a.len()
        invariant
            i <= a.len(),
            a.len() == b.len(),
            forall|j: int| 0 <= j < i ==> a@[j] == b@[j],
        decreases a.len() - i,
    {
        if a[i] != b[i] {
            proof {
                assert(a@ != b@);
            }
            return false;
        }
        i = i + 1;
    }
    proof {
        assert(a@ =~= b@);
    }
    true
}

/// The modeled non-volatile store: the record region as raw bytes, and
/// whether the medium responds at all.
pub struct ThresholdStore {
    /// The raw record region; any content, including a corrupt record.
    pub mem: Vec<u8>,
    /// Whether the medium acknowledges reads and writes.
    pub responsive: bool,
}

/// The configuration a byte region yields at boot: what it decodes to,
/// or the built-in default when it does not decode.
pub open spec fn spec_load_bytes(s: Seq<u8>) -> ThresholdConfig {
    match spec_decode_record(s) {
        Some(cfg) => cfg,
        None => spec_default_config(),
    }
}

impl ThresholdStore {
    /// The configuration this store yields at boot.
    pub open spec fn spec_load(self) -> ThresholdConfig {
        if self.responsive {
            spec_load_bytes(self.mem@)
        } else {
            spec_default_config()
        }
    }

    /// A fresh, empty, responsive store (no record written yet).
    pub fn new() -> (r: ThresholdStore)
        ensures
            r.mem@ == Seq::<u8>::empty(),
            r.responsive,
    {
        ThresholdStore { mem: Vec::new(), responsive: true }
    }

    /// A store whose medium does not respond.
    pub fn unavailable() -> (r: ThresholdStore)
        ensures
            !r.responsive,
    {
        ThresholdStore { mem: Vec::new(), responsive: false }
    }

    /// Reads the record; a missing, corrupt or unresponsive record
    /// degrades to the built-in default rather than failing the boot.
    pub fn load(&self) -> (cfg: ThresholdConfig)
        ensures
            cfg == self.spec_load(),
            cfg.wf(),
    {
        if !self.responsive {
            return ThresholdConfig::default_config();
        }
        match decode_record(&self.mem) {
            Some(cfg) => cfg,
            None => ThresholdConfig::default_config(),
        }
    }

    /// Writes the record for `cfg`, reads it back and compares before
    /// reporting success; an unresponsive medium is reported as such and
    /// leaves the store unchanged.
    pub fn save(&mut self, cfg: &ThresholdConfig) -> (r: Result<(), StoreError>)
        requires
            cfg.wf(),
        ensures
            !old(self).responsive ==> r == Err::<(), StoreError>(StoreError::DeviceUnavailable)
                && *final(self) == *old(self),
            old(self).responsive ==> r == Ok::<(), StoreError>(()) && final(self).mem@
                == spec_encode_record(*cfg) && final(self).responsive,
            r is Ok ==> final(self).spec_load() == *cfg,
    {
        if !self.responsive {
            return Err(StoreError::DeviceUnavailable);
        }
        let record = encode_record(cfg);
        let expected = encode_record(cfg);
        self.mem = record;
        match verify_readback(&expected, Some(&self.mem)) {
            Ok(()) => {
                proof {
                    lemma_record_round_trip(*cfg);
                }
                Ok(())
            },
            Err(e) => Err(e),
        }
    }
}

/// Judges the read-back after a write: no response at all is a device
/// failure, a mismatch is a verify failure, a byte-for-byte match is
/// durable success.
pub fn verify_readback(written: &Vec<u8>, read_back: Option<&Vec<u8>>) -> (r: Result<
    (),
    StoreError,
>)
    ensures
        read_back is None ==> r == Err::<(), StoreError>(StoreError::DeviceUnavailable),
        read_back matches Some(b) && b@ != written@ ==> r == Err::<(), StoreError>(
            StoreError::WriteVerifyMismatch,
        ),
        read_back matches Some(b) && b@ == written@ ==> r == Ok::<(), StoreError>(()),
{
    match read_back {
        None => Err(StoreError::DeviceUnavailable),
        Some(b) => {
            if bytes_eq(written, b) {
                Ok(())
            } else {
                Err(StoreError::WriteVerifyMismatch)
            }
        },
    }
}

/// A committed configuration survives the round trip: loading a region
/// that holds its record yields it back, for every well-formed pair.
pub proof fn lemma_save_load_round_trip(cfg: ThresholdConfig)
    requires
        cfg.wf(),
    ensures
        spec_load_bytes(spec_encode_record(cfg)) == cfg,
{
    lemma_record_round_trip(cfg);
}

/// Byte sums of two regions that differ in exactly one place differ by
/// exactly that byte's change.
proof fn lemma_byte_sum_one_change(a: Seq<u8>, b: Seq<u8>, i: int)
    requires
        a.len() == b.len(),
        0 <= i < a.len(),
        forall|j: int| 0 <= j < a.len() && j != i ==> a[j] == #[trigger] b[j],
    ensures
        spec_byte_sum(b) == spec_byte_sum(a) + b[i] - a[i],
    decreases a.len(),
{
    if i == a.len() - 1 {
        assert(a.drop_last() =~= b.drop_last());
    } else {
        lemma_byte_sum_one_change(a.drop_last(), b.drop_last(), i);
        assert(a.drop_last()[i] == a[i]);
        assert(b.drop_last()[i] == b[i]);
        assert(a.last() == b.last());
    }
}

/// Two little-endian words with a differing byte differ as values.
proof fn lemma_le32_injective(a0: u8, a1: u8, a2: u8, a3: u8, b0: u8, b1: u8, b2: u8, b3: u8)
    requires
        a0 != b0 || a1 != b1 || a2 != b2 || a3 != b3,
    ensures
        (a0 as u32) | ((a1 as u32) << 8) | ((a2 as u32) << 16) | ((a3 as u32) << 24) != (
        b0 as u32) | ((b1 as u32) << 8) | ((b2 as u32) << 16) | ((b3 as u32) << 24),
{
    assert((a0 as u32) | ((a1 as u32) << 8) | ((a2 as u32) << 16) | ((a3 as u32) << 24) == (
    b0 as u32) | ((b1 as u32) << 8) | ((b2 as u32) << 16) | ((b3 as u32) << 24) ==> a0 == b0 && a1
        == b1 && a2 == b2 && a3 == b3) by (bit_vector);
}

/// The checksum guard catches every single corrupted byte: a region
/// that decodes stops decoding when any one of its twelve bytes is
/// changed — whether in the payload (the sum moves, the stored word
/// does not) or in the stored checksum itself.
pub proof fn lemma_single_corruption_detected(s: Seq<u8>, t: Seq<u8>, i: int)
    requires
        spec_decode_record(s) is Some,
        t.len() == s.len(),
        0 <= i < s.len(),
        t[i] != s[i],
        forall|j: int| 0 <= j < s.len() && j != i ==> s[j] == #[trigger] t[j],
    ensures
        spec_decode_record(t) is None,
{
    let sp = s.subrange(0, 8);
    let tp = t.subrange(0, 8);
    if i < 8 {
        lemma_byte_sum_one_change(sp, tp, i);
        assert(spec_from_le_at(t, 8) == spec_from_le_at(s, 8));
        assert(spec_checksum(tp) != spec_checksum(sp));
    } else {
        assert(sp =~= tp);
        lemma_le32_injective(s[8], s[9], s[10], s[11], t[8], t[9], t[10], t[11]);
    }
}

/// A region that does not decode — wrong length, failed checksum,
/// out-of-range or unordered values — always loads as the built-in
/// default, and what loads is always well-formed: a corrupt record can
/// degrade the configuration but never break the boot.
pub proof fn lemma_corrupt_record_loads_default(s: Seq<u8>)
    ensures
        spec_decode_record(s) is None ==> spec_load_bytes(s) == spec_default_config(),
        spec_load_bytes(s).wf(),
{
}

} // verus!
