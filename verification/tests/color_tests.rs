use smart_clock::color::{ramp_step, step_toward, ColorValue, RAMP_STEP};
use smart_clock::temp::ThresholdConfig;

fn cfg(min: i32, max: i32) -> ThresholdConfig {
    ThresholdConfig { min, max }
}

fn map(sample: i32, c: &ThresholdConfig) -> ColorValue {
    smart_clock::color::map(sample, c)
}

#[test]
fn map_pure_cold_at_or_below_min() {
    let c = cfg(180, 260);
    assert_eq!(map(180, &c), ColorValue { red: 0, green: 0, blue: 255 });
    assert_eq!(map(0, &c), ColorValue { red: 0, green: 0, blue: 255 });
    assert_eq!(map(-400, &c), ColorValue { red: 0, green: 0, blue: 255 });
}

#[test]
fn map_pure_hot_at_or_above_max() {
    let c = cfg(180, 260);
    assert_eq!(map(260, &c), ColorValue { red: 255, green: 0, blue: 0 });
    assert_eq!(map(400, &c), ColorValue { red: 255, green: 0, blue: 0 });
    assert_eq!(map(850, &c), ColorValue { red: 255, green: 0, blue: 0 });
}

#[test]
fn map_degenerate_equal_thresholds_is_hot() {
    let c = cfg(220, 220);
    assert_eq!(map(100, &c), ColorValue { red: 255, green: 0, blue: 0 });
    assert_eq!(map(220, &c), ColorValue { red: 255, green: 0, blue: 0 });
    assert_eq!(map(300, &c), ColorValue { red: 255, green: 0, blue: 0 });
}

#[test]
fn map_midpoint_value() {
    // Between 18.0 and 26.0 degrees, 22.0 sits at the middle: the level
    // is round(40/80 * 255) = 128.
    let c = cfg(180, 260);
    let mid = map(220, &c);
    assert_eq!(mid, ColorValue { red: 128, green: 0, blue: 127 });
}

#[test]
fn map_is_monotonic_in_temperature() {
    let c = cfg(180, 260);
    let mut last_red: u8 = 0;
    let mut last_blue: u8 = 255;
    let mut t: i32 = 170;
    while t <= 270 {
        let col = map(t, &c);
        assert!(col.red >= last_red);
        assert!(col.blue <= last_blue);
        assert_eq!(col.green, 0);
        last_red = col.red;
        last_blue = col.blue;
        t += 1;
    }
}

#[test]
fn ramp_moves_one_step() {
    assert_eq!(step_toward(0, 255), RAMP_STEP);
    assert_eq!(step_toward(255, 0), 255 - RAMP_STEP);
    assert_eq!(step_toward(250, 255), 255);
    assert_eq!(step_toward(5, 0), 0);
    assert_eq!(step_toward(90, 90), 90);
}

#[test]
fn ramp_reaches_target_and_stays() {
    let target = ColorValue { red: 255, green: 0, blue: 0 };
    let mut cur = ColorValue { red: 0, green: 0, blue: 255 };
    let mut steps = 0;
    while cur != target {
        cur = ramp_step(cur, target);
        steps += 1;
        assert!(steps <= 20, "ramp must terminate within the window");
    }
    assert_eq!(ramp_step(cur, target), target);
}
