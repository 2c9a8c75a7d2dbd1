//! The real-time timer of the target, as its firmware uses it for delays.
//!
//! `Timer` holds what the firmware knows of the timer's three registers and
//! works out what to write to them. It does not reach the hardware: the
//! firmware reads the counter and hands the reading in, and writes out the
//! mode and the alarm that the timer asks for.

use vstd::prelude::*;

verus! {

/// Bit of the mode register that lets the alarm raise an interrupt.
pub const ALARM_INTERRUPT: u32 = 0x0001_0000;

/// Prescaler that makes the counter advance 1024 times a second, roughly
/// once a millisecond.
pub const PRESCALER: u32 = 0x0000_0020;

/// The sum of a counter reading and a delay as the 32-bit counter holds it:
/// the counter starts again at zero after its largest value.
pub open spec fn wrapped_sum(value: u32, delay: u32) -> u32 {
    ((value + delay) % 0x1_0000_0000) as u32
}

/// The timer's registers, as far as the firmware knows them.
pub struct Timer {
    mode: u32,
    alarm: u32,
    value: u32,
}

impl Timer {
    /// The last value that was written to the mode register.
    pub closed spec fn spec_mode(&self) -> u32 {
        self.mode
    }

    /// The last value that was written to the alarm register.
    pub closed spec fn spec_alarm(&self) -> u32 {
        self.alarm
    }

    /// The last reading of the counter.
    pub closed spec fn spec_value(&self) -> u32 {
        self.value
    }

    /// Whether a sleep that ends at `until` is still going on: the counter
    /// is below `until`.
    pub open spec fn spec_sleeping(&self, until: u32) -> bool {
        self.spec_value() < until
    }

    /// A timer of which nothing is known yet: all three registers count as
    /// zero.
    pub fn new() -> (timer: Timer)
        ensures
            timer.mode() == 0,
            timer.alarm() == 0,
            timer.value() == 0,
    {
        Timer { mode: 0, alarm: 0, value: 0 }
    }

    /// The last value that was written to the mode register.
    #[verifier::when_used_as_spec(spec_mode)]
    pub fn mode(&self) -> (mode: u32)
        ensures
            mode == self.spec_mode(),
    {
        self.mode
    }

    /// The last value that was written to the alarm register.
    #[verifier::when_used_as_spec(spec_alarm)]
    pub fn alarm(&self) -> (alarm: u32)
        ensures
            alarm == self.spec_alarm(),
    {
        self.alarm
    }

    /// The last reading of the counter.
    #[verifier::when_used_as_spec(spec_value)]
    pub fn value(&self) -> (value: u32)
        ensures
            value == self.spec_value(),
    {
        self.value
    }

    /// Takes a new reading of the counter.
    pub fn update(&mut self, value: u32)
        ensures
            final(self).value() == value,
            final(self).mode() == old(self).mode(),
            final(self).alarm() == old(self).alarm(),
    {
        self.value = value;
    }

    /// Sets the alarm `delay_ms` counts after the last reading of the
    /// counter. The alarm wraps as the counter does.
    pub fn set_alarm(&mut self, delay_ms: u32)
        ensures
            final(self).alarm() == wrapped_sum(old(self).value(), delay_ms),
            final(self).value() == old(self).value(),
            final(self).mode() == old(self).mode(),
    {
        self.alarm = self.value.wrapping_add(delay_ms);
    }

    /// Begins a sleep of `milliseconds` counts: sets the mode to the
    /// millisecond prescaler with the alarm interrupt enabled, and returns
    /// the counter value at which the sleep ends. The sleep goes on while
    /// `sleeping` holds for that value.
    ///
    /// The end wraps as the counter does. A sleep that would end past the
    /// counter's largest value therefore ends below the current reading, and
    /// is over at once.
    pub fn sleep_ms(&mut self, milliseconds: u32) -> (until: u32)
        ensures
            until == wrapped_sum(old(self).value(), milliseconds),
            final(self).mode() == ALARM_INTERRUPT + PRESCALER,
            final(self).value() == old(self).value(),
            final(self).alarm() == old(self).alarm(),
            old(self).value() + milliseconds > u32::MAX ==> !final(self).sleeping(until),
            old(self).value() + milliseconds <= u32::MAX ==> (final(self).sleeping(until)
                <==> milliseconds > 0),
    {
        self.mode = ALARM_INTERRUPT | PRESCALER;
        assert(0x0001_0000u32 | 0x0000_0020u32 == 0x0001_0020u32) by (bit_vector);
        self.value.wrapping_add(milliseconds)
    }

    /// Whether a sleep that ends at `until` is still going on.
    #[verifier::when_used_as_spec(spec_sleeping)]
    pub fn sleeping(&self, until: u32) -> (sleeping: bool)
        ensures
            sleeping == self.spec_sleeping(until),
    {
        self.value < until
    }
}

} // verus!
