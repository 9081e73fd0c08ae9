//! Blink clock: a phase that flips whenever more than one period has passed
//! since the last flip.

use vstd::prelude::*;

verus! {

/// Period of the caret blink in milliseconds: half of 1000 / 1.875, truncated.
pub const CARET_BLINK_RATE: u128 = 266;

/// Period of the character blink in milliseconds: 1000 / 1.8, truncated.
pub const CHARACTER_BLINK_RATE: u128 = 555;

/// One phase oscillator driven by a monotonic millisecond clock.
pub struct Blink {
    is_on: bool,
    last_blink: u128,
    blink_rate: u128,
}

impl Blink {
    /// The current phase.
    pub closed spec fn on(&self) -> bool {
        self.is_on
    }

    /// The time of the last flip, 0 before the first one.
    pub closed spec fn last_tick(&self) -> u128 {
        self.last_blink
    }

    /// The period in milliseconds.
    pub closed spec fn period(&self) -> u128 {
        self.blink_rate
    }

    /// Whether an update at `cur_ms` flips the phase.
    pub open spec fn flips_at(&self, cur_ms: u128) -> bool {
        cur_ms - self.last_tick() > self.period()
    }

    /// A clock in the off phase whose last flip was at time 0.
    pub fn new(blink_rate: u128) -> (blink: Self)
        ensures
            !blink.on(),
            blink.last_tick() == 0,
            blink.period() == blink_rate,
    {
        Self { is_on: false, last_blink: 0, blink_rate }
    }

    pub fn is_on(&self) -> (on: bool)
        ensures
            on == self.on(),
    {
        self.is_on
    }

    /// The time of the last flip.
    pub fn last_blink(&self) -> (tick: u128)
        ensures
            tick == self.last_tick(),
    {
        self.last_blink
    }

    /// The period in milliseconds.
    pub fn blink_rate(&self) -> (rate: u128)
        ensures
            rate == self.period(),
    {
        self.blink_rate
    }

    /// Advances the clock to `cur_ms`. The phase flips, and the flip is
    /// recorded at `cur_ms`, exactly when more than one period has passed
    /// since the last flip; otherwise nothing changes.
    pub fn update(&mut self, cur_ms: u128) -> (flipped: bool)
        requires
            cur_ms >= old(self).last_tick(),
        ensures
            flipped == old(self).flips_at(cur_ms),
            final(self).period() == old(self).period(),
            flipped ==> final(self).on() == !old(self).on() && final(self).last_tick() == cur_ms,
            !flipped ==> final(self).on() == old(self).on() && final(self).last_tick() == old(self).last_tick(),
    {
        if cur_ms - self.last_blink > self.blink_rate {
            self.is_on = !self.is_on;
            self.last_blink = cur_ms;
            true
        } else {
            false
        }
    }
}

} // verus!
