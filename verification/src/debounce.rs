//! Button debouncing.
//!
//! A raw edge on a button is accepted as a logical press only when at
//! least the quiet interval has elapsed since the previous accepted edge
//! on that same button; edges inside the interval are ignored.

use vstd::prelude::*;

verus! {

/// Quiet interval in milliseconds: edges closer together than this are
/// one logical press.
pub const DEBOUNCE_MS: u64 = 50;

/// Debouncing state of one button: the time of the last accepted edge.
#[derive(Clone, Copy, PartialEq, Eq, Structural, Debug)]
pub struct Debouncer {
    pub last_accepted: Option<u64>,
}

impl Debouncer {
    /// Whether an edge at `now` would be accepted.
    pub open spec fn spec_accepts(self, now: u64) -> bool {
        match self.last_accepted {
            None => true,
            Some(l) => l <= now && now - l >= DEBOUNCE_MS,
        }
    }

    /// The state after an edge at `now` was offered.
    pub open spec fn spec_after(self, now: u64) -> Debouncer {
        if self.spec_accepts(now) {
            Debouncer { last_accepted: Some(now) }
        } else {
            self
        }
    }

    /// A debouncer that will accept the first edge offered to it.
    pub fn new() -> (r: Debouncer)
        ensures
            r.last_accepted is None,
    {
        Debouncer { last_accepted: None }
    }

    /// Offers an edge observed at `now`; returns whether it counts as a
    /// logical press.
    pub fn accept(&mut self, now: u64) -> (r: bool)
        ensures
            r == old(self).spec_accepts(now),
            *final(self) == old(self).spec_after(now),
    {
        let ok = match self.last_accepted {
            None => true,
            Some(l) => l <= now && now - l >= DEBOUNCE_MS,
        };
        if ok {
            self.last_accepted = Some(now);
        }
        ok
    }
}

/// A bounced signal is one logical press: once an edge at `t1` was
/// accepted, a second edge within the quiet interval is rejected.
pub proof fn lemma_bounce_is_one_press(d: Debouncer, t1: u64, t2: u64)
    requires
        d.spec_accepts(t1),
        t1 <= t2,
        t2 - t1 < DEBOUNCE_MS,
    ensures
        !d.spec_after(t1).spec_accepts(t2),
{
}

} // verus!
