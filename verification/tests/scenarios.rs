use lpd8_monitor::brightness::Brightness;
use lpd8_monitor::clock::Clock;
use lpd8_monitor::discovery::{find_port, DEVICE_NAME};
use lpd8_monitor::driver::{on_time_micros, pwm, render_cycles, Curve, Event};
use lpd8_monitor::metrics::{activity, usage};
use lpd8_monitor::pad::Pad;
use lpd8_monitor::sampler::{sample, Layout, Readings, Source};
use lpd8_monitor::slot::Slot;

fn quiet(cores: Vec<Brightness>) -> Readings {
    Readings {
        cores,
        cpu_temperature: Brightness::off(),
        memory_usage: Brightness::off(),
        network_transmit: Brightness::off(),
        network_receive: Brightness::off(),
        network_transmit_errors: Brightness::off(),
        network_receive_errors: Brightness::off(),
    }
}

fn new_slots() -> Vec<Slot> {
    vec![Slot::new(); Pad::COUNT]
}

fn publish(slots: &mut [Slot], values: &[Option<Brightness>]) {
    for (slot, value) in slots.iter_mut().zip(values) {
        if let Some(value) = value {
            slot.write(*value);
        }
    }
}

#[test]
fn half_load_is_rendered_as_half_a_window() {
    let percent: Vec<u32> = vec![50.0f32.to_bits(); 4];
    let mut slots = new_slots();
    publish(&mut slots, &sample(&quiet(usage(&percent)), &Layout::standard()));
    let duty = slots[Pad::Pad1.index()].read();
    assert_eq!(duty.level(), 500_000);
    for _ in 0..3 {
        assert_eq!(
            pwm(duty, Pad::Pad1),
            vec![
                Event::Activate(Pad::Pad1),
                Event::Suspend(5_000),
                Event::Deactivate(Pad::Pad1),
                Event::Suspend(5_000),
            ]
        );
    }
    assert_eq!(on_time_micros(duty, 10_000, Curve::Linear), 5_000);
    assert_eq!(on_time_micros(duty, 10_000, Curve::Squared), 2_500);
}

#[test]
fn traffic_holds_the_network_pad_on_until_it_stops() {
    let layout = Layout::standard();
    let mut slots = new_slots();
    let mut readings = quiet(Vec::new());

    readings.network_transmit = activity(&vec![0, 1_200]);
    publish(&mut slots, &sample(&readings, &layout));
    let duty = slots[Pad::Pad4.index()].read();
    assert_eq!(duty, Brightness::full());
    for _ in 0..4 {
        assert_eq!(pwm(duty, Pad::Pad4), vec![Event::Activate(Pad::Pad4), Event::Suspend(10_000)]);
    }

    readings.network_transmit = activity(&vec![0, 0]);
    publish(&mut slots, &sample(&readings, &layout));
    let duty = slots[Pad::Pad4.index()].read();
    assert_eq!(duty, Brightness::off());
    assert_eq!(
        pwm(duty, Pad::Pad4),
        vec![Event::Suspend(0), Event::Deactivate(Pad::Pad4), Event::Suspend(10_000)]
    );
}

#[test]
fn the_heartbeat_is_one_window_on_and_the_rest_of_the_second_off() {
    let mut clock = Clock::new();
    let mut slot = Slot::new();
    let mut duties = Vec::new();
    let mut elapsed = 0;
    for _ in 0..2 {
        let tick = clock.tick();
        slot.write(tick.value);
        for _ in 0..tick.hold_micros / 10_000 {
            duties.push(slot.read());
        }
        elapsed += tick.hold_micros;
    }
    assert_eq!(elapsed, 1_000_000);
    assert_eq!(duties.len(), 100);
    let events = render_cycles(Pad::Pad8, &duties, 10_000, Curve::Linear);
    assert_eq!(&events[..2], &[Event::Activate(Pad::Pad8), Event::Suspend(10_000)]);
    assert_eq!(events[2..].len(), 99 * 3);
    for window in events[2..].chunks(3) {
        assert_eq!(
            window,
            &[Event::Suspend(0), Event::Deactivate(Pad::Pad8), Event::Suspend(10_000)]
        );
    }
}

#[test]
fn the_heartbeat_pad_is_written_by_the_clock_alone() {
    let mut sources = [Source::Core(0); 8];
    sources[Pad::Pad8.index()] = Source::Clock;
    let layout = Layout::new(sources);
    let mut slots = new_slots();
    let mut clock = Clock::new();
    slots[Pad::Pad8.index()].write(clock.tick().value);
    publish(&mut slots, &sample(&quiet(vec![Brightness::new(300_000).unwrap()]), &layout));
    assert_eq!(slots[Pad::Pad8.index()].read(), Brightness::full());
    assert_eq!(slots[Pad::Pad1.index()].read().level(), 300_000);
}

#[test]
fn without_the_device_nothing_is_rendered() {
    let ports = vec![Some(String::from("Midi Through:Midi Through Port-0 14:0")), None];
    assert_eq!(find_port(&ports, DEVICE_NAME), None);
    assert_eq!(find_port(&Vec::new(), DEVICE_NAME), None);
}
