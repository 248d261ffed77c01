use smart_clock::clock::{SyncError, TimeRecord};
use smart_clock::color::ColorValue;
use smart_clock::controller::{ButtonEdges, Controller};
use smart_clock::sensor::SensorError;
use smart_clock::store::ThresholdStore;
use smart_clock::temp::ThresholdConfig;

fn no_buttons() -> ButtonEdges {
    ButtonEdges { enter: false, increase: false, decrease: false }
}

fn enter() -> ButtonEdges {
    ButtonEdges { enter: true, increase: false, decrease: false }
}

fn increase() -> ButtonEdges {
    ButtonEdges { enter: false, increase: true, decrease: false }
}

fn decrease() -> ButtonEdges {
    ButtonEdges { enter: false, increase: false, decrease: true }
}

fn synced_controller() -> Controller {
    let mut c = Controller::boot(ThresholdStore::new());
    let rec = TimeRecord { day: 1, month: 1, year: 2024, hour: 12, minute: 0, second: 0 };
    c.finish_sync(&Ok(rec), 0);
    c
}

#[test]
fn boot_loads_default_and_unsynced_time() {
    let mut c = Controller::boot(ThresholdStore::new());
    assert_eq!(c.cfg, ThresholdConfig { min: 180, max: 260 });
    let out = c.tick(0, no_buttons(), None);
    assert!(out.display.time.is_none());
    assert!(out.display.temperature.is_none());
    assert!(out.display.editing.is_none());
}

#[test]
fn sensor_failures_hold_last_good_sample() {
    // Three consecutive failures must never reach the display; the
    // fourth tick's success updates it.
    let mut c = Controller::boot(ThresholdStore::new());
    let out = c.tick(0, no_buttons(), Some(Ok(250)));
    assert_eq!(out.display.temperature, Some(250));
    for k in 1..=3u64 {
        let out = c.tick(k * 5000, no_buttons(), Some(Err(SensorError::TransientRead)));
        assert_eq!(out.display.temperature, Some(250));
    }
    let out = c.tick(20000, no_buttons(), Some(Ok(300)));
    assert_eq!(out.display.temperature, Some(300));
}

#[test]
fn button_session_edits_and_persists() {
    // The Enter/Increase/Increase/Enter/Decrease/Enter session through
    // whole ticks, edges spaced beyond the debounce window.
    let mut c = Controller::boot(ThresholdStore::new());
    c.tick(0, enter(), None);
    let out = c.tick(100, no_buttons(), None);
    assert_eq!(out.display.editing.map(|e| (e.editing_max, e.candidate)), Some((false, 180)));
    c.tick(200, increase(), None);
    c.tick(300, increase(), None);
    c.tick(400, enter(), None);
    let out = c.tick(500, decrease(), None);
    assert_eq!(out.display.editing.map(|e| (e.editing_max, e.candidate)), Some((true, 255)));
    let out = c.tick(600, enter(), None);
    assert_eq!(out.save_result, Some(Ok(())));
    assert!(out.display.editing.is_none());
    assert!(!out.display.save_error);
    assert_eq!(c.cfg, ThresholdConfig { min: 190, max: 255 });
    assert_eq!(c.store.load(), ThresholdConfig { min: 190, max: 255 });
}

#[test]
fn bounced_enter_is_one_press() {
    let mut c = Controller::boot(ThresholdStore::new());
    let out = c.tick(1000, enter(), None);
    assert!(out.display.editing.is_some());
    let candidate = out.display.editing.unwrap().candidate;
    // A second edge 30 ms later bounces: the mode must not advance.
    let out = c.tick(1030, enter(), None);
    assert_eq!(out.display.editing.map(|e| (e.editing_max, e.candidate)), Some((false, candidate)));
}

#[test]
fn commit_to_unresponsive_store_surfaces_error() {
    let mut c = Controller::boot(ThresholdStore::unavailable());
    c.tick(0, enter(), None);
    c.tick(100, enter(), None);
    let out = c.tick(200, enter(), None);
    assert!(matches!(out.save_result, Some(Err(_))));
    assert!(out.display.save_error);
    // The loop keeps running; the edited values stay in force in RAM.
    let out = c.tick(300, no_buttons(), Some(Ok(250)));
    assert_eq!(out.display.temperature, Some(250));
}

#[test]
fn color_ramps_smoothly_to_hot() {
    let mut c = Controller::boot(ThresholdStore::new());
    // Indicator starts pure cold; a hot sample moves it 13 per channel
    // per tick, never jumping.
    let out = c.tick(0, no_buttons(), Some(Ok(850)));
    assert_eq!(out.color, ColorValue { red: 13, green: 0, blue: 242 });
    let mut last = out.color;
    let mut ticks = 1;
    while last != (ColorValue { red: 255, green: 0, blue: 0 }) {
        let out = c.tick(ticks * 50, no_buttons(), None);
        ticks += 1;
        assert!(out.color.red >= last.red && out.color.blue <= last.blue);
        assert!((out.color.red as i32 - last.red as i32).abs() <= 13);
        last = out.color;
        assert!(ticks < 30, "ramp must settle within the transition window");
    }
}

#[test]
fn synced_clock_shows_time_and_advances() {
    let mut c = synced_controller();
    let out = c.tick(0, no_buttons(), None);
    let t = out.display.time.unwrap();
    assert_eq!((t.hour, t.minute, t.second), (12, 0, 0));
    let out = c.tick(61_000, no_buttons(), None);
    let t = out.display.time.unwrap();
    assert_eq!((t.hour, t.minute, t.second), (12, 1, 1));
}

#[test]
fn malformed_sync_degrades_but_does_not_crash() {
    let mut c = Controller::boot(ThresholdStore::new());
    c.finish_sync(&Err(SyncError::Malformed), 0);
    assert!(!c.clock.synced);
    let out = c.tick(0, no_buttons(), Some(Ok(200)));
    assert!(out.display.time.is_none());
    assert_eq!(out.display.temperature, Some(200));
    assert!(out.telemetry.is_none());
}

#[test]
fn telemetry_respects_cadence_and_sync() {
    let mut c = synced_controller();
    // No sample yet: nothing to report.
    let out = c.tick(0, no_buttons(), None);
    assert!(out.telemetry.is_none());
    let out = c.tick(1000, no_buttons(), Some(Ok(231)));
    let rec = out.telemetry.expect("first report due");
    assert_eq!(rec.temperature, 231);
    assert_eq!(rec.epoch_seconds, 1_704_110_401);
    // Within the period: silent.
    let out = c.tick(2000, no_buttons(), None);
    assert!(out.telemetry.is_none());
    // After the period: the next report.
    let out = c.tick(31_000, no_buttons(), None);
    assert!(out.telemetry.is_some());
}
