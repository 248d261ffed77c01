use smart_clock::clock::{SyncError, TimeRecord};
use smart_clock::telemetry::{encode_telemetry, TelemetryRecord};
use smart_clock::timejson::{encode_time_json, parse_time_response};

fn rec(day: u32, month: u32, year: u32, hour: u32, minute: u32, second: u32) -> TimeRecord {
    TimeRecord { day, month, year, hour, minute, second }
}

fn body(text: &str) -> Vec<u8> {
    text.as_bytes().to_vec()
}

#[test]
fn parse_compact_body() {
    let b = body("{\"date\":{\"day\":1,\"month\":2,\"year\":2024},\"time\":{\"hour\":3,\"minute\":4,\"second\":5}}");
    assert_eq!(parse_time_response(&b), Ok(rec(1, 2, 2024, 3, 4, 5)));
}

#[test]
fn parse_body_with_whitespace() {
    let b = body(
        "{ \"date\": {\"day\": 29, \"month\": 2, \"year\": 2024},\n  \"time\": {\"hour\": 23, \"minute\": 59, \"second\": 0} }",
    );
    assert_eq!(parse_time_response(&b), Ok(rec(29, 2, 2024, 23, 59, 0)));
}

#[test]
fn parse_round_trips_the_serializer() {
    let r = rec(15, 7, 2031, 6, 45, 30);
    let b = encode_time_json(&r);
    assert_eq!(parse_time_response(&b), Ok(r));
}

#[test]
fn parse_rejects_missing_field() {
    let b = body("{\"date\":{\"day\":1,\"month\":2},\"time\":{\"hour\":3,\"minute\":4,\"second\":5}}");
    assert_eq!(parse_time_response(&b), Err(SyncError::Malformed));
}

#[test]
fn parse_rejects_wrong_key() {
    let b = body("{\"date\":{\"day\":1,\"month\":2,\"year\":2024},\"time\":{\"hours\":3,\"minute\":4,\"second\":5}}");
    assert_eq!(parse_time_response(&b), Err(SyncError::Malformed));
}

#[test]
fn parse_rejects_extra_content() {
    let b = body("{\"date\":{\"day\":1,\"month\":2,\"year\":2024},\"time\":{\"hour\":3,\"minute\":4,\"second\":5},\"x\":1}");
    assert_eq!(parse_time_response(&b), Err(SyncError::Malformed));
}

#[test]
fn parse_rejects_out_of_range_values() {
    let too_big_month = body(
        "{\"date\":{\"day\":1,\"month\":13,\"year\":2024},\"time\":{\"hour\":3,\"minute\":4,\"second\":5}}",
    );
    assert_eq!(parse_time_response(&too_big_month), Err(SyncError::Malformed));
    let hour_24 = body(
        "{\"date\":{\"day\":1,\"month\":12,\"year\":2024},\"time\":{\"hour\":24,\"minute\":4,\"second\":5}}",
    );
    assert_eq!(parse_time_response(&hour_24), Err(SyncError::Malformed));
    let day_zero = body(
        "{\"date\":{\"day\":0,\"month\":12,\"year\":2024},\"time\":{\"hour\":3,\"minute\":4,\"second\":5}}",
    );
    assert_eq!(parse_time_response(&day_zero), Err(SyncError::Malformed));
}

#[test]
fn parse_rejects_empty_and_garbage_bodies() {
    assert_eq!(parse_time_response(&Vec::new()), Err(SyncError::Malformed));
    assert_eq!(parse_time_response(&body("not json")), Err(SyncError::Malformed));
    assert_eq!(parse_time_response(&body("{}")), Err(SyncError::Malformed));
}

#[test]
fn parse_rejects_leading_zero_numbers() {
    let b = body("{\"date\":{\"day\":01,\"month\":2,\"year\":2024},\"time\":{\"hour\":3,\"minute\":4,\"second\":5}}");
    assert_eq!(parse_time_response(&b), Err(SyncError::Malformed));
}

#[test]
fn telemetry_body_layout() {
    let r = TelemetryRecord { epoch_seconds: 1_704_067_200, temperature: 231 };
    let b = encode_telemetry(&r);
    assert_eq!(
        String::from_utf8(b).unwrap(),
        "{\"datetime\":1704067200,\"temperature\":23.1}"
    );
    let cold = TelemetryRecord { epoch_seconds: 5, temperature: -45 };
    assert_eq!(
        String::from_utf8(encode_telemetry(&cold)).unwrap(),
        "{\"datetime\":5,\"temperature\":-4.5}"
    );
    let zero = TelemetryRecord { epoch_seconds: 0, temperature: 0 };
    assert_eq!(
        String::from_utf8(encode_telemetry(&zero)).unwrap(),
        "{\"datetime\":0,\"temperature\":0.0}"
    );
}
