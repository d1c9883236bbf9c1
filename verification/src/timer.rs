use vstd::prelude::*;

verus! {

/// One step down, stopping at zero.
pub open spec fn wound_down(value: u8) -> u8 {
    if value > 0 {
        (value - 1) as u8
    } else {
        0
    }
}

/// The delay and sound counters, and the clock reading, in microseconds, at
/// which they were last decremented.
#[derive(Clone, Copy, Debug, PartialEq, Eq, Structural)]
pub struct Timer {
    pub delay_value: u8,
    pub sound_value: u8,
    pub last_update: u64,
}

impl Timer {
    /// A decrement is due at `now`: a 60th of a second has passed since the last one.
    pub open spec fn due(self, now: u64) -> bool {
        now - self.last_update >= 16600
    }

    /// The timer after being polled at `now`.
    pub open spec fn ticked(self, now: u64) -> Timer {
        if self.due(now) {
            Timer {
                delay_value: wound_down(self.delay_value),
                sound_value: wound_down(self.sound_value),
                last_update: now,
            }
        } else {
            self
        }
    }

    /// Both counters at zero, counting from `now`.
    pub fn new(now: u64) -> (t: Timer)
        ensures
            t == (Timer { delay_value: 0, sound_value: 0, last_update: now }),
    {
        Timer { delay_value: 0, sound_value: 0, last_update: now }
    }

    /// Polls the timer with the clock reading `now` (microseconds, monotonic).
    /// If at least 16600 microseconds have passed since the last decrement,
    /// both counters go down by one, stopping at zero, and the result is
    /// `true`; otherwise nothing changes.
    pub fn tick(&mut self, now: u64) -> (ticked: bool)
        ensures
            ticked == old(self).due(now),
            *final(self) == old(self).ticked(now),
    {
        if now >= self.last_update && now - self.last_update >= 16600 {
            if self.delay_value > 0 {
                self.delay_value -= 1;
            }
            if self.sound_value > 0 {
                self.sound_value -= 1;
            }
            self.last_update = now;
            true
        } else {
            false
        }
    }

    /// The delay counter.
    pub fn read_delay(&self) -> (value: u8)
        ensures
            value == self.delay_value,
    {
        self.delay_value
    }

    /// Sets the delay counter.
    pub fn write_delay(&mut self, value: u8)
        ensures
            *final(self) == (Timer { delay_value: value, ..*old(self) }),
    {
        self.delay_value = value;
    }

    /// Sets the sound counter.
    pub fn write_sound(&mut self, value: u8)
        ensures
            *final(self) == (Timer { sound_value: value, ..*old(self) }),
    {
        self.sound_value = value;
    }
}

} // verus!
