//! The two 60 Hz countdown timers: delay and sound.

use vstd::prelude::*;

verus! {

/// One step of a countdown that stops at zero.
pub open spec fn count_down(t: u8) -> u8 {
    if t > 0 {
        (t - 1) as u8
    } else {
        0
    }
}

/// The value of a countdown started at `t` after `n` ticks.
pub open spec fn count_down_by(t: u8, n: nat) -> u8 {
    if t >= n {
        (t - n) as u8
    } else {
        0
    }
}

/// The delay and sound timers. Both count down by one per tick of the
/// driver's 60 Hz clock and stay at zero once there; a tone sounds while the
/// sound timer is non-zero.
pub struct Audio {
    pub sound_timer: u8,
    pub delay_timer: u8,
}

impl Audio {
    /// Both timers at zero.
    pub fn new() -> (a: Audio)
        ensures
            a.sound_timer == 0,
            a.delay_timer == 0,
    {
        Audio { sound_timer: 0, delay_timer: 0 }
    }

    /// Sets both timers back to zero.
    pub fn reset(&mut self)
        ensures
            final(self).sound_timer == 0,
            final(self).delay_timer == 0,
    {
        self.sound_timer = 0;
        self.delay_timer = 0;
    }

    /// One tick of the 60 Hz clock: each timer drops by one, floored at zero.
    pub fn tick(&mut self)
        ensures
            final(self).sound_timer == count_down(old(self).sound_timer),
            final(self).delay_timer == count_down(old(self).delay_timer),
    {
        if self.sound_timer > 0 {
            self.sound_timer = self.sound_timer - 1;
        }
        if self.delay_timer > 0 {
            self.delay_timer = self.delay_timer - 1;
        }
    }

    /// Whether the tone should be playing.
    pub fn is_sounding(&self) -> (r: bool)
        ensures
            r == (self.sound_timer > 0),
    {
        self.sound_timer > 0
    }
}

/// Ticking `n` times takes each timer down by `n`, and no further than zero.
pub proof fn lemma_ticks(t: u8, n: nat)
    ensures
        count_down_by(t, n + 1) == count_down(count_down_by(t, n)),
        count_down_by(t, 0) == t,
{
}

/// A timer at most `n` reaches zero within `n` ticks: sixty ticks, one
/// second of the 60 Hz clock, empty a timer set to 60.
pub proof fn lemma_ticks_reach_zero(t: u8, n: nat)
    requires
        t <= n,
    ensures
        count_down_by(t, n) == 0,
        count_down_by(60, 60) == 0,
{
}

} // verus!
