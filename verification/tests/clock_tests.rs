use smart_clock::clock::{
    apply_sync, epoch_seconds, sync_backoff_ms, time_of_day, ClockState, SyncError, TimeOfDay,
    TimeRecord, SYNC_MAX_ATTEMPTS,
};

fn rec(day: u32, month: u32, year: u32, hour: u32, minute: u32, second: u32) -> TimeRecord {
    TimeRecord { day, month, year, hour, minute, second }
}

#[test]
fn epoch_of_known_instants() {
    assert_eq!(epoch_seconds(&rec(1, 1, 1970, 0, 0, 0)), 0);
    assert_eq!(epoch_seconds(&rec(2, 1, 1970, 0, 0, 0)), 86400);
    assert_eq!(epoch_seconds(&rec(1, 1, 2024, 0, 0, 0)), 1_704_067_200);
    assert_eq!(epoch_seconds(&rec(1, 3, 2024, 12, 30, 45)), 1_709_296_245);
    assert_eq!(epoch_seconds(&rec(29, 2, 2024, 23, 59, 59)), 1_709_251_199);
}

#[test]
fn time_of_day_breakdown() {
    let t = time_of_day(1_704_067_200 + 3600 + 2 * 60 + 5);
    assert_eq!(t, TimeOfDay { hour: 1, minute: 2, second: 5 });
    assert_eq!(time_of_day(0), TimeOfDay { hour: 0, minute: 0, second: 0 });
    assert_eq!(time_of_day(86399), TimeOfDay { hour: 23, minute: 59, second: 59 });
}

#[test]
fn backoff_schedule_is_bounded_and_increasing() {
    assert_eq!(sync_backoff_ms(0), Some(500));
    assert_eq!(sync_backoff_ms(1), Some(1000));
    assert_eq!(sync_backoff_ms(2), Some(2000));
    assert_eq!(sync_backoff_ms(3), None);
    assert_eq!(sync_backoff_ms(100), None);
    assert_eq!(SYNC_MAX_ATTEMPTS, 3);
}

#[test]
fn sync_success_seeds_clock() {
    let c = apply_sync(&Ok(rec(1, 1, 2024, 0, 0, 0)));
    assert_eq!(c, ClockState { epoch_seconds: 1_704_067_200, synced: true });
}

#[test]
fn sync_failure_leaves_clock_unsynced() {
    for e in [SyncError::Network, SyncError::Timeout, SyncError::Malformed] {
        let c = apply_sync(&Err(e));
        assert!(!c.synced);
        assert_eq!(c.epoch_seconds, 0);
    }
}

#[test]
fn sync_with_out_of_range_record_leaves_clock_unsynced() {
    let c = apply_sync(&Ok(rec(32, 1, 2024, 0, 0, 0)));
    assert!(!c.synced);
}
