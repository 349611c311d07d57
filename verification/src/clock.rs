//! The heartbeat: a square wave of one second, published to the slot of one pad.
//!
//! Each second begins with a beat: fully on for the length of one render window, so that
//! the driver shows it for one window, then off for the rest of the second.

use crate::brightness::{Brightness, SCALE};
use crate::driver::PULSE_WINDOW_MICROS;
use vstd::prelude::*;

verus! {

/// The length of one heartbeat, in microseconds.
pub const CLOCK_PERIOD_MICROS: u64 = 1_000_000;

/// The heartbeat's state: whether the next thing to publish is the beat.
#[derive(Clone, Copy, Debug, PartialEq, Eq, Structural)]
pub struct Clock {
    beat_next: bool,
}

/// What the clock publishes at one step, and how long it then waits.
#[derive(Clone, Copy, Debug)]
pub struct Tick {
    pub value: Brightness,
    pub hold_micros: u64,
}

/// The level published at a step: fully on for the beat, off after it.
pub open spec fn tick_level(beat: bool) -> nat {
    if beat {
        SCALE as nat
    } else {
        0
    }
}

/// The time waited after a step: one render window after the beat, the rest of the
/// second after that.
pub open spec fn tick_hold(beat: bool) -> nat {
    if beat {
        PULSE_WINDOW_MICROS as nat
    } else {
        (CLOCK_PERIOD_MICROS - PULSE_WINDOW_MICROS) as nat
    }
}

impl View for Clock {
    type V = bool;

    closed spec fn view(&self) -> bool {
        self.beat_next
    }
}

impl Clock {
    /// A clock about to beat.
    pub fn new() -> (clock: Clock)
        ensures
            clock@,
    {
        Clock { beat_next: true }
    }

    /// One step of the heartbeat: what to publish now and how long to wait before the
    /// next step. Beat and rest take turns.
    pub fn tick(&mut self) -> (tick: Tick)
        ensures
            tick.value@ == tick_level(old(self)@),
            tick.hold_micros == tick_hold(old(self)@),
            final(self)@ == !old(self)@,
    {
        let beat = self.beat_next;
        self.beat_next = !beat;
        if beat {
            Tick { value: Brightness::full(), hold_micros: PULSE_WINDOW_MICROS }
        } else {
            Tick { value: Brightness::off(), hold_micros: CLOCK_PERIOD_MICROS - PULSE_WINDOW_MICROS }
        }
    }
}

/// A beat and the rest after it take one second together, in either order, and of any
/// two steps in a row one is fully on and the other off.
pub proof fn lemma_clock_period(beat: bool)
    ensures
        tick_hold(beat) + tick_hold(!beat) == CLOCK_PERIOD_MICROS,
        tick_level(beat) + tick_level(!beat) == SCALE,
        tick_level(beat) == 0 || tick_level(beat) == SCALE,
{
}

} // verus!
