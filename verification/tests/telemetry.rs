use lpd8_monitor::brightness::Brightness;
use lpd8_monitor::metrics::{pick_sensor, Sensor};
use lpd8_monitor::telemetry::{
    get_core_usage_percent, get_cpu_temperature_percent, get_memory_usage_percent,
    get_network_transmitted_percent, read,
};
use sysinfo::{
    ComponentExt, NetworkExt, NetworksExt, ProcessorExt, RefreshKind, System, SystemExt,
};

fn snapshot() -> System {
    let mut system = System::new_with_specifics(
        RefreshKind::everything()
            .without_disks()
            .without_disks_list()
            .without_processes()
            .without_users_list(),
    );
    system.refresh_all();
    system
}

#[test]
fn every_processor_of_the_snapshot_is_reported_in_order() {
    let mut system = snapshot();
    let levels = get_core_usage_percent(&mut system);
    let expected: Vec<Brightness> = system
        .get_processors()
        .iter()
        .map(|processor| Brightness::from_reading(processor.get_cpu_usage().to_bits(), 100))
        .collect();
    assert_eq!(levels, expected);
}

#[test]
fn memory_is_what_the_snapshot_has_in_use_of_its_total() {
    let mut system = snapshot();
    let used = system.get_used_memory();
    let level = get_memory_usage_percent(&mut system, used);
    assert_eq!(level, Brightness::from_ratio(used, system.get_total_memory()));
}

#[test]
fn the_figure_in_use_is_taken_as_it_is_handed_in() {
    let mut system = snapshot();
    let total = system.get_total_memory();
    assert_eq!(get_memory_usage_percent(&mut system, 0), Brightness::off());
    assert_eq!(get_memory_usage_percent(&mut system, total / 4), Brightness::from_ratio(total / 4, total));
    assert_eq!(get_memory_usage_percent(&mut system, total), Brightness::from_ratio(total, total));
}

#[test]
fn a_snapshot_that_was_never_filled_reports_no_memory() {
    let mut system = System::new_with_specifics(RefreshKind::new());
    assert_eq!(get_memory_usage_percent(&mut system, 0), Brightness::off());
    assert_eq!(get_memory_usage_percent(&mut system, 1_000), Brightness::off());
}

#[test]
fn the_network_pad_is_on_when_an_interface_sent_something() {
    let mut system = snapshot();
    let sent = system.get_networks().iter().any(|(_, interface)| interface.get_transmitted() > 0);
    let level = get_network_transmitted_percent(&mut system);
    assert_eq!(level, if sent { Brightness::full() } else { Brightness::off() });
}

#[test]
fn the_temperature_is_that_of_the_picked_sensor() {
    let mut system = snapshot();
    let sensors: Vec<Sensor> = system
        .get_components()
        .iter()
        .map(|component| Sensor {
            label: component.get_label().to_owned(),
            reading: component.get_temperature().to_bits(),
        })
        .collect();
    let expected = match pick_sensor(&sensors) {
        Some(i) => Brightness::from_reading(sensors[i].reading, 100),
        None => Brightness::off(),
    };
    assert_eq!(get_cpu_temperature_percent(&mut system), expected);
}

#[test]
fn one_reading_of_the_snapshot_holds_every_quantity() {
    let mut system = snapshot();
    let used = system.get_used_memory();
    let readings = read(&mut system, used);
    assert_eq!(readings.cores, get_core_usage_percent(&mut system));
    assert_eq!(readings.cpu_temperature, get_cpu_temperature_percent(&mut system));
    assert_eq!(readings.memory_usage, get_memory_usage_percent(&mut system, used));
    assert_eq!(readings.network_transmit, get_network_transmitted_percent(&mut system));
    let received = system.get_networks().iter().any(|(_, interface)| interface.get_received() > 0);
    assert_eq!(readings.network_receive.is_full(), received);
    assert!(readings.network_receive.is_full() || readings.network_receive.is_off());
    assert!(readings.network_transmit_errors.is_full() || readings.network_transmit_errors.is_off());
    assert!(readings.network_receive_errors.is_full() || readings.network_receive_errors.is_off());
}
