//! Coalescing of filesystem change events into reload notifications.
//!
//! Saving a file often produces a burst of change events in quick succession.
//! Forwarding each one to the browsers would cause a storm of redundant
//! reloads, so events are folded together: an event starts a new notification
//! only when no notification has been issued within the configured window
//! before it; otherwise it is absorbed into the previous one.

use vstd::prelude::*;

verus! {

/// How long after a notification further change events are folded into it,
/// in milliseconds.
pub const DEBOUNCE_WINDOW_MS: u64 = 100;

/// The debouncer's abstract state: the configured window, and the time the
/// last notification was issued, if any has been.
pub ghost struct DebounceModel {
    pub window_ms: u64,
    pub last_fire_ms: Option<u64>,
}

/// Whether an event observed at `now_ms` starts a new notification.
pub open spec fn spec_fires(d: DebounceModel, now_ms: u64) -> bool {
    match d.last_fire_ms {
        Option::None => true,
        Option::Some(t) => now_ms >= t + d.window_ms,
    }
}

/// The debouncer's state after an event observed at `now_ms`.
pub open spec fn spec_after_event(d: DebounceModel, now_ms: u64) -> DebounceModel {
    if spec_fires(d, now_ms) {
        DebounceModel { window_ms: d.window_ms, last_fire_ms: Option::Some(now_ms) }
    } else {
        d
    }
}

/// A clock reading the debouncer may be handed: not earlier than the last
/// notification it recorded.  The caller reads a monotonic clock, so this
/// holds of every reading it passes on.
pub open spec fn spec_clock_ok(d: DebounceModel, now_ms: u64) -> bool {
    match d.last_fire_ms {
        Option::None => true,
        Option::Some(t) => now_ms >= t,
    }
}

/// Folds bursts of change events into single reload notifications.
pub struct Debouncer {
    window_ms: u64,
    last_fire_ms: Option<u64>,
}

impl View for Debouncer {
    type V = DebounceModel;

    closed spec fn view(&self) -> DebounceModel {
        DebounceModel { window_ms: self.window_ms, last_fire_ms: self.last_fire_ms }
    }
}

impl Debouncer {
    /// A fresh debouncer: no notification has been issued yet, so the first
    /// event always fires one.
    pub fn new(window_ms: u64) -> (d: Debouncer)
        ensures
            d@ == (DebounceModel { window_ms, last_fire_ms: Option::None::<u64> }),
    {
        Debouncer { window_ms, last_fire_ms: None }
    }

    /// Records a change event observed at `now_ms` and reports whether it
    /// starts a new notification (`true`) or is coalesced into the previous
    /// one (`false`).
    pub fn on_event(&mut self, now_ms: u64) -> (fire: bool)
        requires
            spec_clock_ok(old(self)@, now_ms),
        ensures
            fire == spec_fires(old(self)@, now_ms),
            final(self)@ == spec_after_event(old(self)@, now_ms),
    {
        let fire = match self.last_fire_ms {
            None => true,
            Some(t) => now_ms - t >= self.window_ms,
        };
        if fire {
            self.last_fire_ms = Some(now_ms);
        }
        fire
    }
}

/// Two change events reaching a fresh debouncer in order are answered with
/// exactly one notification when the second falls within the window opened by
/// the first, and with two separate notifications when it falls outside it.
pub proof fn lemma_two_events_coalesce(window_ms: u64, t1: u64, t2: u64)
    requires
        t1 <= t2,
    ensures
        ({
            let d0 = DebounceModel { window_ms, last_fire_ms: Option::None::<u64> };
            let d1 = spec_after_event(d0, t1);
            &&& spec_fires(d0, t1)
            &&& (t2 < t1 + window_ms ==> !spec_fires(d1, t2))
            &&& (t2 >= t1 + window_ms ==> spec_fires(d1, t2))
        }),
{
}

} // verus!
