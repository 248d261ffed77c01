//! The threshold-configuration state machine.
//!
//! Three debounced buttons drive a fixed editing cycle:
//! `Normal -> EditingMin -> EditingMax -> Normal`. Enter opens editing of
//! the lower threshold, Increase/Decrease move the candidate by half a
//! degree (clamped so the pair stays ordered and in range), Enter commits
//! the candidate and moves on; the second Enter also asks the caller to
//! persist the pair. Every button sequence is total: out-of-range
//! adjustments clamp, they never fail.

use vstd::prelude::*;

use crate::temp::{clamp, spec_clamp, temp_in_range, ThresholdConfig, TEMP_MAX, TEMP_MIN, TEMP_STEP};

verus! {

/// A debounced logical button press.
#[derive(Clone, Copy, PartialEq, Eq, Structural, Debug)]
pub enum ButtonEvent {
    Enter,
    Increase,
    Decrease,
}

/// Where in the editing cycle the machine stands.
#[derive(Clone, Copy, PartialEq, Eq, Structural, Debug)]
pub enum ConfigMode {
    Normal,
    EditingMin,
    EditingMax,
}

/// The editing state: the mode and, while editing, the candidate value.
#[derive(Clone, Copy, PartialEq, Eq, Structural, Debug)]
pub struct ConfigStateMachine {
    pub mode: ConfigMode,
    /// Meaningful only while `mode != Normal`.
    pub candidate: i32,
}

/// Result of one transition: the next editing state, the (possibly
/// updated) configuration, and whether the caller must persist it now.
#[derive(Clone, Copy, PartialEq, Eq, Structural, Debug)]
pub struct Transition {
    pub machine: ConfigStateMachine,
    pub cfg: ThresholdConfig,
    pub commit: bool,
}

impl ConfigStateMachine {
    /// While editing, the candidate stays inside the band that keeps the
    /// configuration ordered when it is committed.
    pub open spec fn inv(self, cfg: ThresholdConfig) -> bool {
        &&& (self.mode is EditingMin ==> TEMP_MIN <= self.candidate <= cfg.max)
        &&& (self.mode is EditingMax ==> cfg.min <= self.candidate <= TEMP_MAX)
    }

    /// A machine at rest in `Normal` mode.
    pub fn new() -> (r: ConfigStateMachine)
        ensures
            r.mode is Normal,
            forall|cfg: ThresholdConfig| r.inv(cfg),
    {
        ConfigStateMachine { mode: ConfigMode::Normal, candidate: 0 }
    }

    /// Feeds one logical press into the machine; returns whether the new
    /// configuration must be persisted now.
    pub fn on_button(&mut self, cfg: &mut ThresholdConfig, event: ButtonEvent) -> (commit: bool)
        requires
            old(cfg).wf(),
            old(self).inv(*old(cfg)),
        ensures
            (Transition { machine: *final(self), cfg: *final(cfg), commit }) == spec_step(
                *old(self),
                *old(cfg),
                event,
            ),
            final(cfg).wf(),
            final(self).inv(*final(cfg)),
            commit ==> final(self).mode is Normal,
            old(self).mode is Normal && !(event is Enter) ==> *final(cfg) == *old(cfg)
                && *final(self) == *old(self),
    {
        let mut commit = false;
        match self.mode {
            ConfigMode::Normal => {
                if let ButtonEvent::Enter = event {
                    self.mode = ConfigMode::EditingMin;
                    self.candidate = cfg.min;
                }
            },
            ConfigMode::EditingMin => {
                match event {
                    ButtonEvent::Increase => {
                        self.candidate = clamp(self.candidate + TEMP_STEP, TEMP_MIN, cfg.max);
                    },
                    ButtonEvent::Decrease => {
                        self.candidate = clamp(self.candidate - TEMP_STEP, TEMP_MIN, cfg.max);
                    },
                    ButtonEvent::Enter => {
                        cfg.min = self.candidate;
                        self.mode = ConfigMode::EditingMax;
                        self.candidate = cfg.max;
                    },
                }
            },
            ConfigMode::EditingMax => {
                match event {
                    ButtonEvent::Increase => {
                        self.candidate = clamp(self.candidate + TEMP_STEP, cfg.min, TEMP_MAX);
                    },
                    ButtonEvent::Decrease => {
                        self.candidate = clamp(self.candidate - TEMP_STEP, cfg.min, TEMP_MAX);
                    },
                    ButtonEvent::Enter => {
                        cfg.max = self.candidate;
                        self.mode = ConfigMode::Normal;
                        self.candidate = 0;
                        commit = true;
                    },
                }
            },
        }
        commit
    }
}

/// The transition function of the editing cycle, written out case by
/// case over the mode and the pressed button.
pub open spec fn spec_step(
    m: ConfigStateMachine,
    cfg: ThresholdConfig,
    event: ButtonEvent,
) -> Transition {
    match m.mode {
        ConfigMode::Normal => match event {
            ButtonEvent::Enter => Transition {
                machine: ConfigStateMachine { mode: ConfigMode::EditingMin, candidate: cfg.min },
                cfg,
                commit: false,
            },
            _ => Transition { machine: m, cfg, commit: false },
        },
        ConfigMode::EditingMin => match event {
            ButtonEvent::Increase => Transition {
                machine: ConfigStateMachine {
                    mode: ConfigMode::EditingMin,
                    candidate: spec_clamp(
                        m.candidate + TEMP_STEP,
                        TEMP_MIN as int,
                        cfg.max as int,
                    ) as i32,
                },
                cfg,
                commit: false,
            },
            ButtonEvent::Decrease => Transition {
                machine: ConfigStateMachine {
                    mode: ConfigMode::EditingMin,
                    candidate: spec_clamp(
                        m.candidate - TEMP_STEP,
                        TEMP_MIN as int,
                        cfg.max as int,
                    ) as i32,
                },
                cfg,
                commit: false,
            },
            ButtonEvent::Enter => Transition {
                machine: ConfigStateMachine { mode: ConfigMode::EditingMax, candidate: cfg.max },
                cfg: ThresholdConfig { min: m.candidate, max: cfg.max },
                commit: false,
            },
        },
        ConfigMode::EditingMax => match event {
            ButtonEvent::Increase => Transition {
                machine: ConfigStateMachine {
                    mode: ConfigMode::EditingMax,
                    candidate: spec_clamp(
                        m.candidate + TEMP_STEP,
                        cfg.min as int,
                        TEMP_MAX as int,
                    ) as i32,
                },
                cfg,
                commit: false,
            },
            ButtonEvent::Decrease => Transition {
                machine: ConfigStateMachine {
                    mode: ConfigMode::EditingMax,
                    candidate: spec_clamp(
                        m.candidate - TEMP_STEP,
                        cfg.min as int,
                        TEMP_MAX as int,
                    ) as i32,
                },
                cfg,
                commit: false,
            },
            ButtonEvent::Enter => Transition {
                machine: ConfigStateMachine { mode: ConfigMode::Normal, candidate: 0 },
                cfg: ThresholdConfig { min: cfg.min, max: m.candidate },
                commit: true,
            },
        },
    }
}

/// A transition out of a well-formed state lands in a well-formed
/// state — every button sequence is total — and only the second Enter
/// of a session asks for a commit, so a crash mid-session never
/// touches the store.
pub proof fn lemma_step_preserves_wf(m: ConfigStateMachine, cfg: ThresholdConfig, e: ButtonEvent)
    requires
        cfg.wf(),
        m.inv(cfg),
    ensures
        spec_step(m, cfg, e).cfg.wf(),
        spec_step(m, cfg, e).machine.inv(spec_step(m, cfg, e).cfg),
        spec_step(m, cfg, e).commit ==> m.mode is EditingMax && e is Enter,
{
}

} // verus!
