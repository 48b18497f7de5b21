//! The dual-cadence scheduling decisions: one loop drives a slow data
//! refresh and a fast animation step from a single thread.
//!
//! The loop blocks for input for at most the smaller of the two remainders,
//! so neither cadence can starve, then checks each activity independently.
//! The animation delta-time is capped so a stall never produces a large
//! simulation jump.

use vstd::prelude::*;

use crate::particle::DT_CAP_MS;

verus! {

/// Milliseconds between data refreshes.
pub const DATA_PERIOD_MS: u64 = 1_000;

/// Milliseconds between animation steps.
pub const ANIM_PERIOD_MS: u64 = 16;

/// When each of the two periodic activities last ran, against one
/// monotonic reference clock.
pub struct Cadence {
    /// Clock reading of the last data refresh.
    pub last_data_ms: u64,
    /// Clock reading of the last animation step.
    pub last_anim_ms: u64,
}

/// Milliseconds until an activity with the given period is next due:
/// zero once the period has elapsed since `last`.
pub open spec fn spec_remaining(period: u64, last: u64, now: u64) -> int {
    if now >= last + period {
        0
    } else if now >= last {
        last + period - now
    } else {
        period as int
    }
}

impl Cadence {
    /// Both timers start at `now_ms`: each activity first comes due one
    /// full period later (the caller performs the initial refresh itself).
    pub fn new(now_ms: u64) -> (c: Cadence)
        ensures
            c.last_data_ms == now_ms,
            c.last_anim_ms == now_ms,
    {
        Cadence { last_data_ms: now_ms, last_anim_ms: now_ms }
    }

    /// How long the loop may block for input: the smaller of the two
    /// remainders, so neither the animation nor the data refresh can
    /// starve behind the other.
    pub fn poll_timeout_ms(&self, now_ms: u64) -> (t: u64)
        ensures
            t == (if spec_remaining(DATA_PERIOD_MS, self.last_data_ms, now_ms) <= spec_remaining(
                ANIM_PERIOD_MS,
                self.last_anim_ms,
                now_ms,
            ) {
                spec_remaining(DATA_PERIOD_MS, self.last_data_ms, now_ms)
            } else {
                spec_remaining(ANIM_PERIOD_MS, self.last_anim_ms, now_ms)
            }),
            t <= DATA_PERIOD_MS,
            t <= ANIM_PERIOD_MS,
    {
        let until_data = DATA_PERIOD_MS.saturating_sub(now_ms.saturating_sub(self.last_data_ms));
        let until_anim = ANIM_PERIOD_MS.saturating_sub(now_ms.saturating_sub(self.last_anim_ms));
        if until_data <= until_anim {
            until_data
        } else {
            until_anim
        }
    }

    /// Whether the animation interval has elapsed.
    pub fn anim_due(&self, now_ms: u64) -> (b: bool)
        ensures
            b == (spec_remaining(ANIM_PERIOD_MS, self.last_anim_ms, now_ms) == 0),
    {
        now_ms.saturating_sub(self.last_anim_ms) >= ANIM_PERIOD_MS
    }

    /// Whether the data interval has elapsed.
    pub fn data_due(&self, now_ms: u64) -> (b: bool)
        ensures
            b == (spec_remaining(DATA_PERIOD_MS, self.last_data_ms, now_ms) == 0),
    {
        now_ms.saturating_sub(self.last_data_ms) >= DATA_PERIOD_MS
    }

    /// Starts an animation step: restarts the animation timer and returns
    /// the delta-time to simulate, the elapsed milliseconds capped at
    /// `DT_CAP_MS` to avoid a large jump after a stall.
    pub fn begin_anim(&mut self, now_ms: u64) -> (dt_ms: u32)
        ensures
            final(self).last_anim_ms == now_ms,
            final(self).last_data_ms == old(self).last_data_ms,
            dt_ms == (if now_ms >= old(self).last_anim_ms && now_ms - old(self).last_anim_ms
                < DT_CAP_MS {
                now_ms - old(self).last_anim_ms
            } else if now_ms < old(self).last_anim_ms {
                0int
            } else {
                DT_CAP_MS as int
            }),
            dt_ms <= DT_CAP_MS,
    {
        let elapsed = now_ms.saturating_sub(self.last_anim_ms);
        let dt: u32 = if elapsed >= DT_CAP_MS as u64 {
            DT_CAP_MS
        } else {
            elapsed as u32
        };
        self.last_anim_ms = now_ms;
        dt
    }

    /// Starts a data refresh: restarts the data timer.
    pub fn begin_data(&mut self, now_ms: u64)
        ensures
            final(self).last_data_ms == now_ms,
            final(self).last_anim_ms == old(self).last_anim_ms,
    {
        self.last_data_ms = now_ms;
    }
}

} // verus!
