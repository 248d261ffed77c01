use smart_clock::fsm::{ButtonEvent, ConfigMode, ConfigStateMachine};
use smart_clock::store::ThresholdStore;
use smart_clock::temp::{ThresholdConfig, TEMP_MAX, TEMP_MIN};

#[test]
fn edit_session_commits_once_with_final_values() {
    // [Enter, Increase, Increase, Enter, Decrease, Enter] from
    // min=18.0, max=26.0 must end Normal with min=19.0, max=25.5 and
    // exactly one save, of the final values.
    let mut cfg = ThresholdConfig { min: 180, max: 260 };
    let mut fsm = ConfigStateMachine::new();
    let mut store = ThresholdStore::new();
    let events = [
        ButtonEvent::Enter,
        ButtonEvent::Increase,
        ButtonEvent::Increase,
        ButtonEvent::Enter,
        ButtonEvent::Decrease,
        ButtonEvent::Enter,
    ];
    let mut saves = 0;
    for e in events {
        if fsm.on_button(&mut cfg, e) {
            assert_eq!(store.save(&cfg), Ok(()));
            saves += 1;
        }
    }
    assert_eq!(saves, 1);
    assert_eq!(fsm.mode, ConfigMode::Normal);
    assert_eq!(cfg, ThresholdConfig { min: 190, max: 255 });
    assert_eq!(store.load(), ThresholdConfig { min: 190, max: 255 });
}

#[test]
fn session_without_commit_leaves_store_untouched() {
    let mut cfg = ThresholdConfig { min: 180, max: 260 };
    let mut fsm = ConfigStateMachine::new();
    // Enter editing and adjust, but never confirm the second threshold.
    assert!(!fsm.on_button(&mut cfg, ButtonEvent::Enter));
    assert!(!fsm.on_button(&mut cfg, ButtonEvent::Increase));
    assert!(!fsm.on_button(&mut cfg, ButtonEvent::Enter));
    assert!(!fsm.on_button(&mut cfg, ButtonEvent::Decrease));
    assert_eq!(fsm.mode, ConfigMode::EditingMax);
}

#[test]
fn candidate_clamps_at_sensor_range() {
    let mut cfg = ThresholdConfig { min: TEMP_MIN, max: TEMP_MAX };
    let mut fsm = ConfigStateMachine::new();
    fsm.on_button(&mut cfg, ButtonEvent::Enter);
    assert_eq!(fsm.candidate, TEMP_MIN);
    fsm.on_button(&mut cfg, ButtonEvent::Decrease);
    assert_eq!(fsm.candidate, TEMP_MIN);
    fsm.on_button(&mut cfg, ButtonEvent::Enter);
    assert_eq!(fsm.candidate, TEMP_MAX);
    fsm.on_button(&mut cfg, ButtonEvent::Increase);
    assert_eq!(fsm.candidate, TEMP_MAX);
}

#[test]
fn editing_max_cannot_drop_below_committed_min() {
    let mut cfg = ThresholdConfig { min: 180, max: 185 };
    let mut fsm = ConfigStateMachine::new();
    fsm.on_button(&mut cfg, ButtonEvent::Enter);
    fsm.on_button(&mut cfg, ButtonEvent::Enter);
    // Now editing max with candidate 185 and committed min 180: one
    // decrease would pass below the min, so it clamps there.
    assert_eq!(fsm.mode, ConfigMode::EditingMax);
    fsm.on_button(&mut cfg, ButtonEvent::Decrease);
    assert_eq!(fsm.candidate, 180);
    fsm.on_button(&mut cfg, ButtonEvent::Decrease);
    assert_eq!(fsm.candidate, 180);
}

#[test]
fn editing_min_cannot_rise_above_current_max() {
    let mut cfg = ThresholdConfig { min: 250, max: 255 };
    let mut fsm = ConfigStateMachine::new();
    fsm.on_button(&mut cfg, ButtonEvent::Enter);
    fsm.on_button(&mut cfg, ButtonEvent::Increase);
    assert_eq!(fsm.candidate, 255);
    fsm.on_button(&mut cfg, ButtonEvent::Increase);
    assert_eq!(fsm.candidate, 255);
}

#[test]
fn adjust_buttons_do_nothing_in_normal_mode() {
    let mut cfg = ThresholdConfig { min: 180, max: 260 };
    let mut fsm = ConfigStateMachine::new();
    assert!(!fsm.on_button(&mut cfg, ButtonEvent::Increase));
    assert!(!fsm.on_button(&mut cfg, ButtonEvent::Decrease));
    assert_eq!(fsm.mode, ConfigMode::Normal);
    assert_eq!(cfg, ThresholdConfig { min: 180, max: 260 });
}
