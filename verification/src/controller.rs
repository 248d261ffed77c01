//! The top-level controller: one scheduling tick of the smart clock.
//!
//! The controller owns the configuration, the editing state machine,
//! the store, the clock and the last good sample. Each tick it applies
//! debounced button edges (and persists a confirmed commit), folds in a
//! sensor reading without ever surfacing a transient failure, steps the
//! color ramp toward the mapped target, and decides what the display
//! and the telemetry side channel get. The surrounding firmware only
//! performs the I/O this tick asks for.

use vstd::prelude::*;

use crate::clock::{
    apply_sync, spec_epoch, spec_time_of_day, time_of_day, wf_time, ClockState, SyncError,
    TimeOfDay, TimeRecord,
};
use crate::color::{ramp_step, spec_cold, spec_map, spec_ramp_step, ColorValue};
use crate::debounce::Debouncer;
use crate::fsm::{spec_step, ButtonEvent, ConfigMode, ConfigStateMachine};
use crate::sensor::{absorb_reading, is_due, SensorError, SensorSample};
use crate::store::{spec_encode_record, StoreError, ThresholdStore};
use crate::telemetry::{TelemetryRecord, REPORT_PERIOD_MS};
use crate::temp::ThresholdConfig;

verus! {

/// The raw button edges the firmware saw since the last tick.
#[derive(Clone, Copy, PartialEq, Eq, Structural, Debug)]
pub struct ButtonEdges {
    pub enter: bool,
    pub increase: bool,
    pub decrease: bool,
}

/// What the display's threshold-editing region shows.
#[derive(Clone, Copy, PartialEq, Eq, Structural, Debug)]
pub struct EditingView {
    /// Whether the upper threshold is the one being edited.
    pub editing_max: bool,
    /// The candidate value, tenths of a degree.
    pub candidate: i32,
}

/// What the display shows after a tick: the time of day (or nothing
/// when the clock is unsynced), the last good temperature (or nothing
/// before the first good sample), the editing region, and whether the
/// last commit failed.
#[derive(Clone, Copy, PartialEq, Eq, Debug)]
pub struct DisplayModel {
    pub time: Option<TimeOfDay>,
    pub temperature: Option<i32>,
    pub editing: Option<EditingView>,
    pub save_error: bool,
}

/// Everything one tick asks the firmware to do.
#[derive(Clone, Copy, PartialEq, Eq, Debug)]
pub struct TickOutput {
    /// The color to drive this tick (one ramp step toward the target).
    pub color: ColorValue,
    pub display: DisplayModel,
    /// A report to push, at most once per reporting period.
    pub telemetry: Option<TelemetryRecord>,
    /// The outcome of a commit made this tick, surfaced to the user.
    pub save_result: Option<Result<(), StoreError>>,
}

/// One debounced button fed through the editing state machine: the
/// press is accepted only outside the quiet interval, and only then
/// does the machine step.
pub open spec fn spec_button_stage(
    m: ConfigStateMachine,
    cfg: ThresholdConfig,
    d: Debouncer,
    pressed: bool,
    now: u64,
    e: ButtonEvent,
) -> (ConfigStateMachine, ThresholdConfig, Debouncer, bool) {
    if pressed && d.spec_accepts(now) {
        let tr = spec_step(m, cfg, e);
        (tr.machine, tr.cfg, d.spec_after(now), tr.commit)
    } else if pressed {
        (m, cfg, d.spec_after(now), false)
    } else {
        (m, cfg, d, false)
    }
}

/// Milliseconds elapsed from `base` to `now` (zero if `now` is older).
pub open spec fn spec_elapsed(now: u64, base: u64) -> int {
    if now >= base {
        now - base
    } else {
        0
    }
}

/// The epoch value the clock names at `now`.
pub open spec fn spec_current_epoch(clock: ClockState, base_ms: u64, now_ms: u64) -> int {
    clock.epoch_seconds + spec_elapsed(now_ms, base_ms) / 1000
}

/// The color target of a tick: the mapped last good sample, or the
/// current color (no movement) before the first good sample.
pub open spec fn spec_color_target(
    sample: Option<SensorSample>,
    cfg: ThresholdConfig,
    cur: ColorValue,
) -> ColorValue {
    match sample {
        Some(s) => spec_map(s.temperature as int, cfg),
        None => cur,
    }
}

/// The controller's state.
pub struct Controller {
    pub cfg: ThresholdConfig,
    pub fsm: ConfigStateMachine,
    pub store: ThresholdStore,
    pub clock: ClockState,
    /// The local instant at which the clock was seeded.
    pub clock_base_ms: u64,
    pub last_sample: Option<SensorSample>,
    pub current_color: ColorValue,
    pub last_report_ms: Option<u64>,
    pub deb_enter: Debouncer,
    pub deb_increase: Debouncer,
    pub deb_decrease: Debouncer,
    /// Whether the most recent commit failed (shown until the next one).
    pub save_error: bool,
}

impl Controller {
    /// The controller's invariant: a well-formed configuration, an
    /// editing candidate inside its band, and a clock seeded only with
    /// a bounded epoch value.
    pub open spec fn inv(self) -> bool {
        &&& self.cfg.wf()
        &&& self.fsm.inv(self.cfg)
        &&& self.clock.epoch_seconds < 4_200_000_000
    }

    /// Boots the controller: the configuration comes from the store
    /// (or its built-in default), the clock is unsynced, no sample is
    /// held yet and the indicator starts at pure cold.
    pub fn boot(store: ThresholdStore) -> (c: Controller)
        ensures
            c.inv(),
            c.cfg == store.spec_load(),
            c.store == store,
            !c.clock.synced,
            c.fsm.mode is Normal,
            c.last_sample is None,
            c.current_color == spec_cold(),
            c.last_report_ms is None,
            !c.save_error,
    {
        let cfg = store.load();
        Controller {
            cfg,
            fsm: ConfigStateMachine::new(),
            store,
            clock: ClockState { epoch_seconds: 0, synced: false },
            clock_base_ms: 0,
            last_sample: None,
            current_color: ColorValue { red: 0, green: 0, blue: 255 },
            last_report_ms: None,
            deb_enter: Debouncer::new(),
            deb_increase: Debouncer::new(),
            deb_decrease: Debouncer::new(),
            save_error: false,
        }
    }

    /// Applies the boot-time synchronization outcome: a good record
    /// seeds the clock, any failure leaves it unsynced — the display
    /// then shows an unknown time rather than a fabricated one.
    pub fn finish_sync(&mut self, outcome: &Result<TimeRecord, SyncError>, now_ms: u64)
        requires
            old(self).inv(),
        ensures
            final(self).inv(),
            outcome matches Ok(r) ==> (wf_time(*r) ==> final(self).clock == (ClockState {
                epoch_seconds: spec_epoch(*r) as u64,
                synced: true,
            })),
            outcome is Err ==> final(self).clock == (ClockState {
                epoch_seconds: 0,
                synced: false,
            }),
            final(self).clock_base_ms == now_ms,
            final(self).cfg == old(self).cfg,
            final(self).fsm == old(self).fsm,
            final(self).store == old(self).store,
            final(self).last_sample == old(self).last_sample,
    {
        self.clock = apply_sync(outcome);
        self.clock_base_ms = now_ms;
    }

    /// One scheduling tick. Buttons are debounced and applied before
    /// anything else, so an edit is visible in the same tick; a
    /// confirmed commit is persisted and its outcome surfaced; a failed
    /// sensor read never displaces the last good sample; the color
    /// moves one ramp step toward the mapped target; the display and
    /// the telemetry side channel get the held state.
    #[verifier::rlimit(100)]
    pub fn tick(
        &mut self,
        now_ms: u64,
        edges: ButtonEdges,
        reading: Option<Result<i32, SensorError>>,
    ) -> (out: TickOutput)
        requires
            old(self).inv(),
        ensures
            final(self).inv(),
            // Buttons: three debounced stages, in Enter/Increase/Decrease order.
            ({
                let s1 = spec_button_stage(
                    old(self).fsm,
                    old(self).cfg,
                    old(self).deb_enter,
                    edges.enter,
                    now_ms,
                    ButtonEvent::Enter,
                );
                let s2 = spec_button_stage(
                    s1.0,
                    s1.1,
                    old(self).deb_increase,
                    edges.increase,
                    now_ms,
                    ButtonEvent::Increase,
                );
                let s3 = spec_button_stage(
                    s2.0,
                    s2.1,
                    old(self).deb_decrease,
                    edges.decrease,
                    now_ms,
                    ButtonEvent::Decrease,
                );
                let committed = s1.3 || s2.3 || s3.3;
                &&& final(self).fsm == s3.0
                &&& final(self).cfg == s3.1
                &&& final(self).deb_enter == s1.2
                &&& final(self).deb_increase == s2.2
                &&& final(self).deb_decrease == s3.2
                &&& (committed && old(self).store.responsive ==> final(self).store.mem@
                    == spec_encode_record(s3.1) && out.save_result == Some(
                    Ok::<(), StoreError>(()),
                ) && !final(self).save_error && final(self).store.spec_load() == s3.1)
                &&& (committed && !old(self).store.responsive ==> out.save_result == Some(
                    Err::<(), StoreError>(StoreError::DeviceUnavailable),
                ) && final(self).store == old(self).store && final(self).save_error)
                &&& (!committed ==> final(self).store == old(self).store && out.save_result
                    is None && final(self).save_error == old(self).save_error)
            }),
            // Sensor: a failure never displaces the last good sample.
            reading matches Some(res) ==> final(self).last_sample == (match res {
                Ok(v) => Some(SensorSample { temperature: v, taken_at_ms: now_ms }),
                Err(_) => old(self).last_sample,
            }),
            reading is None ==> final(self).last_sample == old(self).last_sample,
            // Color: one ramp step toward the mapped target under the new bounds.
            out.color == spec_ramp_step(
                old(self).current_color,
                spec_color_target(
                    final(self).last_sample,
                    final(self).cfg,
                    old(self).current_color,
                ),
            ),
            final(self).current_color == out.color,
            // Display: held temperature, real or unknown time, editing region.
            out.display.temperature == (match final(self).last_sample {
                Some(s) => Some(s.temperature),
                None => None::<i32>,
            }),
            out.display.time == (if old(self).clock.synced {
                Some(
                    spec_time_of_day(
                        spec_current_epoch(old(self).clock, old(self).clock_base_ms, now_ms),
                    ),
                )
            } else {
                None::<TimeOfDay>
            }),
            out.display.editing == (match final(self).fsm.mode {
                ConfigMode::Normal => None::<EditingView>,
                ConfigMode::EditingMin => Some(
                    EditingView { editing_max: false, candidate: final(self).fsm.candidate },
                ),
                ConfigMode::EditingMax => Some(
                    EditingView { editing_max: true, candidate: final(self).fsm.candidate },
                ),
            }),
            out.display.save_error == final(self).save_error,
            // Telemetry: at most one report per period, only with a synced
            // clock and a held sample.
            out.telemetry == (if old(self).clock.synced && final(self).last_sample is Some
                && crate::sensor::spec_due(now_ms, old(self).last_report_ms, REPORT_PERIOD_MS) {
                Some(
                    TelemetryRecord {
                        epoch_seconds: spec_current_epoch(
                            old(self).clock,
                            old(self).clock_base_ms,
                            now_ms,
                        ) as u64,
                        temperature: final(self).last_sample.unwrap().temperature,
                    },
                )
            } else {
                None::<TelemetryRecord>
            }),
            out.telemetry is Some ==> final(self).last_report_ms == Some(now_ms),
            out.telemetry is None ==> final(self).last_report_ms == old(self).last_report_ms,
            // The clock itself never changes after boot.
            final(self).clock == old(self).clock,
            final(self).clock_base_ms == old(self).clock_base_ms,
    {
        // Buttons first: edits are visible before the color recomputation.
        let mut commit = false;
        if edges.enter {
            if self.deb_enter.accept(now_ms) {
                if self.fsm.on_button(&mut self.cfg, ButtonEvent::Enter) {
                    commit = true;
                }
            }
        }
        if edges.increase {
            if self.deb_increase.accept(now_ms) {
                if self.fsm.on_button(&mut self.cfg, ButtonEvent::Increase) {
                    commit = true;
                }
            }
        }
        if edges.decrease {
            if self.deb_decrease.accept(now_ms) {
                if self.fsm.on_button(&mut self.cfg, ButtonEvent::Decrease) {
                    commit = true;
                }
            }
        }
        let mut save_result: Option<Result<(), StoreError>> = None;
        if commit {
            let r = self.store.save(&self.cfg);
            self.save_error = r.is_err();
            save_result = Some(r);
        }
        // Sensor: fold the reading in, keeping the last good sample on failure.
        if let Some(res) = reading {
            let wrapped: Result<SensorSample, SensorError> = match res {
                Ok(v) => Ok(SensorSample { temperature: v, taken_at_ms: now_ms }),
                Err(e) => Err(e),
            };
            self.last_sample = absorb_reading(self.last_sample, wrapped);
        }
        // Color: one ramp step toward the target under the (new) bounds.
        let target = match self.last_sample {
            Some(s) => crate::color::map(s.temperature, &self.cfg),
            None => self.current_color,
        };
        self.current_color = ramp_step(self.current_color, target);
        // Display.
        let elapsed: u64 = if now_ms >= self.clock_base_ms {
            now_ms - self.clock_base_ms
        } else {
            0
        };
        proof {
            vstd::arithmetic::div_mod::lemma_div_is_ordered(elapsed as int, u64::MAX as int, 1000);
        }
        let epoch_now: u64 = self.clock.epoch_seconds + elapsed / 1000;
        let display = DisplayModel {
            time: if self.clock.synced {
                Some(time_of_day(epoch_now))
            } else {
                None
            },
            temperature: match self.last_sample {
                Some(s) => Some(s.temperature),
                None => None,
            },
            editing: match self.fsm.mode {
                ConfigMode::Normal => None,
                ConfigMode::EditingMin => Some(
                    EditingView { editing_max: false, candidate: self.fsm.candidate },
                ),
                ConfigMode::EditingMax => Some(
                    EditingView { editing_max: true, candidate: self.fsm.candidate },
                ),
            },
            save_error: self.save_error,
        };
        // Telemetry, on its own slower cadence.
        let telemetry: Option<TelemetryRecord> = if self.clock.synced && self.last_sample.is_some()
            && is_due(now_ms, self.last_report_ms, REPORT_PERIOD_MS) {
            self.last_report_ms = Some(now_ms);
            Some(
                TelemetryRecord {
                    epoch_seconds: epoch_now,
                    temperature: match self.last_sample {
                        Some(s) => s.temperature,
                        None => 0,
                    },
                },
            )
        } else {
            None
        };
        TickOutput { color: self.current_color, display, telemetry, save_result }
    }
}

} // verus!
