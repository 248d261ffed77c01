use smart_clock::store::{
    checksum_of, decode_record, encode_record, push_le32, verify_readback, StoreError,
    ThresholdStore, RECORD_LEN,
};
use smart_clock::temp::{ThresholdConfig, DEFAULT_MAX, DEFAULT_MIN};

#[test]
fn save_then_load_round_trips() {
    let cases = [
        (190, 255),
        (180, 260),
        (-400, 850),
        (0, 0),
        (-400, -400),
        (850, 850),
        (235, 240),
    ];
    for (min, max) in cases {
        let mut store = ThresholdStore::new();
        let cfg = ThresholdConfig { min, max };
        assert_eq!(store.save(&cfg), Ok(()));
        assert_eq!(store.load(), cfg);
    }
}

#[test]
fn load_after_corrupted_checksum_returns_default() {
    let mut store = ThresholdStore::new();
    let cfg = ThresholdConfig { min: 190, max: 255 };
    assert_eq!(store.save(&cfg), Ok(()));
    // Break the checksum byte: the record must degrade to the default,
    // never panic.
    store.mem[8] ^= 0xff;
    assert_eq!(store.load(), ThresholdConfig { min: DEFAULT_MIN, max: DEFAULT_MAX });
}

#[test]
fn load_after_corrupted_payload_returns_default() {
    let mut store = ThresholdStore::new();
    assert_eq!(store.save(&ThresholdConfig { min: 200, max: 300 }), Ok(()));
    store.mem[0] = store.mem[0].wrapping_add(1);
    assert_eq!(store.load(), ThresholdConfig { min: DEFAULT_MIN, max: DEFAULT_MAX });
}

#[test]
fn load_with_no_record_returns_default() {
    let store = ThresholdStore::new();
    assert_eq!(store.load(), ThresholdConfig { min: DEFAULT_MIN, max: DEFAULT_MAX });
}

#[test]
fn load_from_unresponsive_medium_returns_default() {
    let store = ThresholdStore::unavailable();
    assert_eq!(store.load(), ThresholdConfig { min: DEFAULT_MIN, max: DEFAULT_MAX });
}

#[test]
fn save_to_unresponsive_medium_reports_device_unavailable() {
    let mut store = ThresholdStore::unavailable();
    let cfg = ThresholdConfig { min: 190, max: 255 };
    assert_eq!(store.save(&cfg), Err(StoreError::DeviceUnavailable));
}

#[test]
fn readback_mismatch_is_detected() {
    let written = vec![1u8, 2, 3];
    let differing = vec![1u8, 2, 4];
    let same = vec![1u8, 2, 3];
    assert_eq!(verify_readback(&written, None), Err(StoreError::DeviceUnavailable));
    assert_eq!(
        verify_readback(&written, Some(&differing)),
        Err(StoreError::WriteVerifyMismatch)
    );
    assert_eq!(verify_readback(&written, Some(&same)), Ok(()));
}

#[test]
fn encode_then_decode_round_trips() {
    let cfg = ThresholdConfig { min: -15, max: 305 };
    let bytes = encode_record(&cfg);
    assert_eq!(bytes.len(), RECORD_LEN);
    assert_eq!(decode_record(&bytes), Some(cfg));
}

#[test]
fn decode_rejects_wrong_length() {
    let mut bytes = encode_record(&ThresholdConfig { min: 180, max: 260 });
    bytes.push(0);
    assert_eq!(decode_record(&bytes), None);
    assert_eq!(decode_record(&Vec::new()), None);
}

#[test]
fn decode_rejects_unordered_or_out_of_range_values() {
    // A record whose checksum is right but whose values are unordered:
    // biased min 700 (= 30.0 degrees) above biased max 100 (= -30.0).
    let mut bytes: Vec<u8> = Vec::new();
    push_le32(&mut bytes, 700);
    push_le32(&mut bytes, 100);
    let c = checksum_of(&bytes, 8);
    push_le32(&mut bytes, c);
    assert_eq!(decode_record(&bytes), None);
    // Out of range: biased value 5000 would be 460.0 degrees.
    let mut bytes2: Vec<u8> = Vec::new();
    push_le32(&mut bytes2, 5000);
    push_le32(&mut bytes2, 5001);
    let c2 = checksum_of(&bytes2, 8);
    push_le32(&mut bytes2, c2);
    assert_eq!(decode_record(&bytes2), None);
}
