//! When the edited request is saved: edits set a due time a little ahead,
//! and a ticking check saves once it has passed, retrying soon after the
//! save queue pushes back.
use vstd::prelude::*;
use crate::text::{chars_of, starts_with, starts_with_chars};

verus! {

/// How long after an edit the request is saved, in milliseconds.
pub const REQUEST_SAVE_DELAY_MS: u64 = 350;

/// How long a save waits to be retried after backpressure, in
/// milliseconds.
pub const SAVE_RETRY_MS: u64 = 100;

/// The debounced saving of the edited request.
#[derive(Debug, Clone, Copy, PartialEq, Eq, Structural)]
pub struct RequestSave {
    pub pending_due_at_ms: Option<u64>,
    pub tick_scheduled: bool,
    pub in_flight: bool,
}

/// What a tick of the save check comes to.
#[derive(Debug, Clone, Copy, PartialEq, Eq, Structural)]
pub enum SaveTick {
    /// Nothing is due, or a save is in flight: the ticking stops.
    Stop,
    /// A save is due later: the check ticks again.
    Wait,
    /// The save is due: the request is saved now.
    Save,
}

/// `now + delay`, saturating.
pub open spec fn due_after(now: u64, delay: u64) -> u64 {
    if now + delay <= u64::MAX {
        (now + delay) as u64
    } else {
        u64::MAX
    }
}

/// Whether an error is the save queue pushing back.
pub open spec fn is_backpressure(error: Seq<char>) -> bool {
    starts_with(error, "Backpressure:"@)
}

/// The state after an edit at `now`: with a request selected, the save is
/// due `delay` later and the check ticks.
pub open spec fn after_schedule(s: RequestSave, request_selected: bool, now: u64, delay: u64) -> RequestSave {
    if request_selected {
        RequestSave { pending_due_at_ms: Some(due_after(now, delay)), tick_scheduled: true, ..s }
    } else {
        s
    }
}

/// What a tick at `now` comes to, and the state after it.
pub open spec fn after_tick(s: RequestSave, now: u64) -> (SaveTick, RequestSave) {
    if s.in_flight {
        (SaveTick::Stop, RequestSave { tick_scheduled: false, ..s })
    } else {
        match s.pending_due_at_ms {
            None => (SaveTick::Stop, RequestSave { tick_scheduled: false, ..s }),
            Some(due) => if now < due {
                (SaveTick::Wait, s)
            } else {
                (SaveTick::Save, RequestSave { pending_due_at_ms: None, tick_scheduled: false, ..s })
            },
        }
    }
}

impl RequestSave {
    /// Nothing pending.
    pub fn new() -> (r: Self)
        ensures
            r == (RequestSave { pending_due_at_ms: None, tick_scheduled: false, in_flight: false }),
    {
        RequestSave { pending_due_at_ms: None, tick_scheduled: false, in_flight: false }
    }

    /// An edit at `now_ms`: with a request selected, the save is due
    /// `delay_ms` later; returns whether a tick must be started (none was
    /// running).
    pub fn schedule(&mut self, request_selected: bool, now_ms: u64, delay_ms: u64) -> (start_tick:
        bool)
        ensures
            *final(self) == after_schedule(*old(self), request_selected, now_ms, delay_ms),
            start_tick == (request_selected && !old(self).tick_scheduled),
    {
        if !request_selected {
            return false;
        }
        self.pending_due_at_ms = Some(now_ms.saturating_add(delay_ms));
        if self.tick_scheduled {
            return false;
        }
        self.tick_scheduled = true;
        true
    }

    /// A tick of the check at `now_ms` (see `SaveTick`); a due save clears
    /// the due time and the ticking.
    pub fn tick(&mut self, now_ms: u64) -> (r: SaveTick)
        ensures
            (r, *final(self)) == after_tick(*old(self), now_ms),
    {
        if self.in_flight {
            self.tick_scheduled = false;
            return SaveTick::Stop;
        }
        match self.pending_due_at_ms {
            None => {
                self.tick_scheduled = false;
                SaveTick::Stop
            },
            Some(due) => {
                if now_ms < due {
                    SaveTick::Wait
                } else {
                    self.pending_due_at_ms = None;
                    self.tick_scheduled = false;
                    SaveTick::Save
                }
            },
        }
    }

    /// The save went out at `now_ms`, or failed to be queued with `error`;
    /// backpressure makes it due again `SAVE_RETRY_MS` later. Returns
    /// whether a tick must be started for a save still due.
    pub fn finish(&mut self, error: Option<&str>, now_ms: u64) -> (start_tick: bool)
        ensures
            final(self).pending_due_at_ms == match error {
                Some(e) if is_backpressure(e@) => Some(due_after(now_ms, SAVE_RETRY_MS)),
                _ => old(self).pending_due_at_ms,
            },
            !final(self).in_flight,
            start_tick == (final(self).pending_due_at_ms is Some && !old(self).tick_scheduled),
            final(self).tick_scheduled == (old(self).tick_scheduled || start_tick),
    {
        if let Some(e) = error {
            if starts_with_chars(&chars_of(e), chars_of("Backpressure:").as_slice()) {
                self.pending_due_at_ms = Some(now_ms.saturating_add(SAVE_RETRY_MS));
            }
        }
        self.in_flight = false;
        if self.pending_due_at_ms.is_some() && !self.tick_scheduled {
            self.tick_scheduled = true;
            return true;
        }
        false
    }
}

/// The save waits for the edits to stop: after an edit at `t`, with no
/// save in flight, a tick before `t + delay` waits and a tick from then on
/// saves; a later edit starts the wait again.
pub proof fn lemma_save_waits_for_quiet(s: RequestSave, t: u64, delay: u64, now: u64)
    requires
        !s.in_flight,
    ensures
        after_tick(after_schedule(s, true, t, delay), now).0 == if now < due_after(t, delay) {
            SaveTick::Wait
        } else {
            SaveTick::Save
        },
{
}

} // verus!
