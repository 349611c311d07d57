//! The soft-PWM renderer: one pad's brightness as a train of on/off pulses.
//!
//! Time is cut into windows of a fixed length. In each window the pad is switched on for
//! a share of the window that the response curve gives for the brightness, and off for
//! the rest. The renderer decides; whoever owns the connection to the device carries the
//! events out in their order.
//!
//! The panel itself renders with the linear curve and a window of ten milliseconds.

use crate::brightness::{
    lemma_round_div_exact, lemma_round_div_monotonic, levels_of, round_div, Brightness, SCALE,
};
use crate::pad::{note_off, note_on, off_message, on_message, Pad};
use vstd::prelude::*;

verus! {

/// The length of one render window of the panel, in microseconds.
pub const PULSE_WINDOW_MICROS: u64 = 10_000;

/// How brightness becomes the share of a window that a pad is on.
#[derive(Clone, Copy, Debug, PartialEq, Eq, Structural)]
pub enum Curve {
    /// The share is the brightness itself.
    Linear,
    /// The share is the square of the brightness, which follows the eye more closely at
    /// the low end.
    Squared,
}

/// What a driver asks of the outside world, one step at a time.
#[derive(Clone, Copy, Debug, PartialEq, Eq, Structural)]
pub enum Event {
    /// Switch the pad on.
    Activate(Pad),
    /// Switch the pad off.
    Deactivate(Pad),
    /// Let the given number of microseconds pass.
    Suspend(u64),
}

impl Event {
    /// The message that carries the event to the device; to suspend takes none.
    pub fn message(&self) -> (message: Option<[u8; 3]>)
        ensures
            match (*self, message) {
                (Event::Activate(pad), Some(bytes)) => bytes@ == on_message(pad),
                (Event::Deactivate(pad), Some(bytes)) => bytes@ == off_message(pad),
                (Event::Suspend(_), None) => true,
                _ => false,
            },
    {
        match self {
            Event::Activate(pad) => Some(note_on(pad)),
            Event::Deactivate(pad) => Some(note_off(pad)),
            Event::Suspend(_) => None,
        }
    }
}

/// The curve's value at a brightness of `level` millionths is this number over
/// `response_denominator`.
pub open spec fn response_numerator(curve: Curve, level: nat) -> nat {
    match curve {
        Curve::Linear => level,
        Curve::Squared => level * level,
    }
}

/// What the curve's values are fractions of: the curve is one where its numerator
/// reaches this.
pub open spec fn response_denominator(curve: Curve) -> nat {
    match curve {
        Curve::Linear => SCALE as nat,
        Curve::Squared => SCALE as nat * SCALE as nat,
    }
}

/// Microseconds of a window of `window` microseconds that a pad of brightness `level` is
/// on: the window times the curve's value, rounded to the nearest microsecond.
pub open spec fn on_time(curve: Curve, window: nat, level: nat) -> nat {
    round_div(window * response_numerator(curve, level), response_denominator(curve))
}

/// Microseconds of the window that are left once the on-time has passed.
pub open spec fn off_time(curve: Curve, window: nat, level: nat) -> nat {
    (window - on_time(curve, window, level)) as nat
}

/// The events of one window, in order. A pad that is off is never activated and one that
/// is fully on is never deactivated; the on-time is always waited for, so that every
/// window takes the same time.
pub open spec fn cycle_events(pad: Pad, curve: Curve, window: nat, level: nat) -> Seq<Event> {
    let activate = if level > 0 {
        seq![Event::Activate(pad)]
    } else {
        Seq::<Event>::empty()
    };
    let release = if level < SCALE {
        seq![Event::Deactivate(pad), Event::Suspend(off_time(curve, window, level) as u64)]
    } else {
        Seq::<Event>::empty()
    };
    activate + seq![Event::Suspend(on_time(curve, window, level) as u64)] + release
}

/// The events of one window after another, one window for each brightness in `levels`.
pub open spec fn trace(pad: Pad, curve: Curve, window: nat, levels: Seq<nat>) -> Seq<Event>
    decreases levels.len(),
{
    if levels.len() == 0 {
        Seq::<Event>::empty()
    } else {
        trace(pad, curve, window, levels.drop_last()) + cycle_events(
            pad,
            curve,
            window,
            levels.last(),
        )
    }
}

/// The time that a run of events suspends for, in microseconds.
pub open spec fn suspended(events: Seq<Event>) -> nat
    decreases events.len(),
{
    if events.len() == 0 {
        0
    } else {
        suspended(events.drop_last()) + match events.last() {
            Event::Suspend(micros) => micros as nat,
            _ => 0,
        }
    }
}

/// The curve is zero at off and one at fully on.
pub proof fn lemma_response_endpoints(curve: Curve)
    ensures
        response_numerator(curve, 0) == 0,
        response_numerator(curve, SCALE as nat) == response_denominator(curve),
        response_denominator(curve) > 0,
{
}

/// The curve never falls as the brightness rises.
pub proof fn lemma_response_monotonic(curve: Curve, dimmer: nat, brighter: nat)
    requires
        dimmer <= brighter,
    ensures
        response_numerator(curve, dimmer) <= response_numerator(curve, brighter),
{
    assert(dimmer * dimmer <= brighter * brighter) by (nonlinear_arith)
        requires
            dimmer <= brighter,
    ;
}

/// The on-time never falls as the brightness rises.
pub proof fn lemma_on_time_monotonic(curve: Curve, window: nat, dimmer: nat, brighter: nat)
    requires
        dimmer <= brighter,
    ensures
        on_time(curve, window, dimmer) <= on_time(curve, window, brighter),
{
    lemma_response_monotonic(curve, dimmer, brighter);
    let low = response_numerator(curve, dimmer);
    let high = response_numerator(curve, brighter);
    assert(window * low <= window * high) by (nonlinear_arith)
        requires
            low <= high,
    ;
    lemma_round_div_monotonic(window * low, window * high, response_denominator(curve));
}

/// On-time and off-time make up the window exactly, whatever the brightness: a pad that
/// is off has no on-time, and one that is fully on has the whole window.
pub proof fn lemma_window_is_filled(curve: Curve, window: nat, level: nat)
    requires
        level <= SCALE,
    ensures
        on_time(curve, window, level) <= window,
        on_time(curve, window, level) + off_time(curve, window, level) == window,
        on_time(curve, window, 0) == 0,
        on_time(curve, window, SCALE as nat) == window,
{
    let denominator = response_denominator(curve);
    lemma_on_time_monotonic(curve, window, level, SCALE as nat);
    lemma_round_div_exact(window, denominator);
    assert(window * 0 == 0) by (nonlinear_arith);
    lemma_round_div_exact(0, denominator);
    assert(0 * denominator == 0) by (nonlinear_arith);
}

/// The microseconds of the window that a pad of brightness `duty` is on.
pub fn on_time_micros(duty: Brightness, window_micros: u64, curve: Curve) -> (micros: u64)
    ensures
        micros == on_time(curve, window_micros as nat, duty@),
        micros <= window_micros,
{
    let level: u128 = duty.level() as u128;
    let (numerator, denominator): (u128, u128) = match curve {
        Curve::Linear => (level, 1_000_000u128),
        Curve::Squared => {
            assert(level * level <= 1_000_000 * 1_000_000) by (nonlinear_arith)
                requires
                    level <= 1_000_000,
            ;
            (level * level, 1_000_000_000_000u128)
        },
    };
    assert(window_micros * numerator <= 0xffff_ffff_ffff_ffff * 1_000_000_000_000)
        by (nonlinear_arith)
        requires
            window_micros <= 0xffff_ffff_ffff_ffff,
            numerator <= 1_000_000_000_000,
    ;
    let scaled: u128 = (window_micros as u128) * numerator;
    let nearest: u128 = (2 * scaled + denominator) / (2 * denominator);
    proof {
        lemma_window_is_filled(curve, window_micros as nat, duty@);
    }
    nearest as u64
}

/// The events of one window for a pad of brightness `duty`.
pub fn render_cycle(pad: Pad, duty: Brightness, window_micros: u64, curve: Curve) -> (events: Vec<
    Event,
>)
    ensures
        events@ == cycle_events(pad, curve, window_micros as nat, duty@),
{
    let on: u64 = on_time_micros(duty, window_micros, curve);
    let mut events: Vec<Event> = Vec::new();
    if !duty.is_off() {
        events.push(Event::Activate(pad));
    }
    events.push(Event::Suspend(on));
    if !duty.is_full() {
        events.push(Event::Deactivate(pad));
        events.push(Event::Suspend(window_micros - on));
    }
    assert(events@ =~= cycle_events(pad, curve, window_micros as nat, duty@));
    events
}

/// One window of the panel for `pad` at brightness `duty_cycle`: the panel's window
/// length and the linear curve.
pub fn pwm(duty_cycle: Brightness, pad: Pad) -> (events: Vec<Event>)
    ensures
        events@ == cycle_events(pad, Curve::Linear, PULSE_WINDOW_MICROS as nat, duty_cycle@),
{
    render_cycle(pad, duty_cycle, PULSE_WINDOW_MICROS, Curve::Linear)
}

/// The events of one window after another, one window for each brightness in `duties`.
pub fn render_cycles(pad: Pad, duties: &Vec<Brightness>, window_micros: u64, curve: Curve) -> (events:
    Vec<Event>)
    ensures
        events@ == trace(pad, curve, window_micros as nat, levels_of(duties@)),
{
    let mut events: Vec<Event> = Vec::new();
    let mut done: usize = 0;
    while done < duties.len()
        invariant
            done <= duties.len(),
            events@ == trace(
                pad,
                curve,
                window_micros as nat,
                levels_of(duties@.take(done as int)),
            ),
        decreases duties.len() - done,
    {
        let mut cycle = render_cycle(pad, duties[done], window_micros, curve);
        events.append(&mut cycle);
        proof {
            let before = levels_of(duties@.take(done as int));
            let after = levels_of(duties@.take(done + 1));
            assert(after.drop_last() =~= before);
            assert(after.last() == duties@[done as int]@);
        }
        done += 1;
    }
    assert(duties@.take(done as int) =~= duties@);
    events
}

/// The time that two runs of events suspend for, one after the other, is the sum of
/// their times.
pub proof fn lemma_suspended_concat(first: Seq<Event>, second: Seq<Event>)
    ensures
        suspended(first + second) == suspended(first) + suspended(second),
    decreases second.len(),
{
    if second.len() == 0 {
        assert(first + second =~= first);
    } else {
        assert((first + second).drop_last() =~= first + second.drop_last());
        lemma_suspended_concat(first, second.drop_last());
    }
}

/// One window suspends for exactly the window's length, whatever the brightness.
pub proof fn lemma_cycle_duration(pad: Pad, curve: Curve, window: nat, level: nat)
    requires
        level <= SCALE,
        window <= u64::MAX,
    ensures
        suspended(cycle_events(pad, curve, window, level)) == window,
{
    lemma_window_is_filled(curve, window, level);
    let on = Event::Suspend(on_time(curve, window, level) as u64);
    let off = Event::Suspend(off_time(curve, window, level) as u64);
    let activate = if level > 0 {
        seq![Event::Activate(pad)]
    } else {
        Seq::<Event>::empty()
    };
    let release = if level < SCALE {
        seq![Event::Deactivate(pad), off]
    } else {
        Seq::<Event>::empty()
    };
    reveal_with_fuel(suspended, 3);
    assert(suspended(activate) == 0);
    assert(suspended(seq![on]) == on_time(curve, window, level));
    assert(seq![Event::Deactivate(pad), off].drop_last() =~= seq![Event::Deactivate(pad)]);
    assert(suspended(release) == off_time(curve, window, level));
    lemma_suspended_concat(activate, seq![on]);
    lemma_suspended_concat(activate + seq![on], release);
}

/// Rendering does not drift: any number of windows, at any brightnesses, suspends for
/// exactly that number of windows.
pub proof fn lemma_trace_duration(pad: Pad, curve: Curve, window: nat, levels: Seq<nat>)
    requires
        window <= u64::MAX,
        forall|i: int| 0 <= i < levels.len() ==> levels[i] <= SCALE,
    ensures
        suspended(trace(pad, curve, window, levels)) == levels.len() * window,
    decreases levels.len(),
{
    if levels.len() == 0 {
        assert(0 * window == 0) by (nonlinear_arith);
    } else {
        let earlier = levels.drop_last();
        lemma_trace_duration(pad, curve, window, earlier);
        lemma_cycle_duration(pad, curve, window, levels.last());
        lemma_suspended_concat(
            trace(pad, curve, window, earlier),
            cycle_events(pad, curve, window, levels.last()),
        );
        assert(earlier.len() * window + window == levels.len() * window) by (nonlinear_arith)
            requires
                earlier.len() + 1 == levels.len(),
        ;
    }
}

/// A pad that stays off is never activated, however many windows pass.
pub proof fn lemma_off_never_activates(pad: Pad, curve: Curve, window: nat, levels: Seq<nat>)
    requires
        forall|i: int| 0 <= i < levels.len() ==> levels[i] == 0,
    ensures
        forall|k: int|
            0 <= k < trace(pad, curve, window, levels).len() ==> !(#[trigger] trace(
                pad,
                curve,
                window,
                levels,
            )[k] is Activate),
    decreases levels.len(),
{
    if levels.len() > 0 {
        lemma_off_never_activates(pad, curve, window, levels.drop_last());
    }
}

/// A pad that stays fully on is never deactivated, however many windows pass.
pub proof fn lemma_full_never_deactivates(pad: Pad, curve: Curve, window: nat, levels: Seq<nat>)
    requires
        forall|i: int| 0 <= i < levels.len() ==> levels[i] == SCALE,
    ensures
        forall|k: int|
            0 <= k < trace(pad, curve, window, levels).len() ==> !(#[trigger] trace(
                pad,
                curve,
                window,
                levels,
            )[k] is Deactivate),
    decreases levels.len(),
{
    if levels.len() > 0 {
        lemma_full_never_deactivates(pad, curve, window, levels.drop_last());
    }
}

/// A driver switches no pad but its own.
pub proof fn lemma_trace_addresses_own_pad(pad: Pad, curve: Curve, window: nat, levels: Seq<nat>)
    ensures
        forall|k: int|
            0 <= k < trace(pad, curve, window, levels).len() ==> match #[trigger] trace(
                pad,
                curve,
                window,
                levels,
            )[k] {
                Event::Activate(p) => p == pad,
                Event::Deactivate(p) => p == pad,
                Event::Suspend(_) => true,
            },
    decreases levels.len(),
{
    if levels.len() > 0 {
        lemma_trace_addresses_own_pad(pad, curve, window, levels.drop_last());
    }
}

} // verus!
