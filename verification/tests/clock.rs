use lpd8_monitor::brightness::Brightness;
use lpd8_monitor::clock::{Clock, CLOCK_PERIOD_MICROS};

#[test]
fn the_clock_begins_with_a_beat() {
    let mut clock = Clock::new();
    let tick = clock.tick();
    assert_eq!(tick.value, Brightness::full());
    assert_eq!(tick.hold_micros, 10_000);
}

#[test]
fn beat_and_rest_take_turns() {
    let mut clock = Clock::new();
    for _ in 0..50 {
        let beat = clock.tick();
        let rest = clock.tick();
        assert_eq!(beat.value, Brightness::full());
        assert_eq!(rest.value, Brightness::off());
        assert_eq!(rest.hold_micros, 990_000);
        assert_eq!(beat.hold_micros + rest.hold_micros, CLOCK_PERIOD_MICROS);
    }
}

#[test]
fn a_heartbeat_takes_one_second() {
    assert_eq!(CLOCK_PERIOD_MICROS, 1_000_000);
    let mut clock = Clock::new();
    let total: u64 = (0..20).map(|_| clock.tick().hold_micros).sum();
    assert_eq!(total, 10 * CLOCK_PERIOD_MICROS);
}
