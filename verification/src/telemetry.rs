//! The telemetry source: what the operating system's snapshot reports, as brightness.
//!
//! Nothing here refreshes the snapshot. Whoever owns it refreshes it once, and every
//! reading taken until the next refresh is of that one state of the machine.
//!
//! One figure is not taken here: the memory in use. The snapshot works it out as a
//! difference of amounts that it holds as they were reported, and nothing here can tell
//! whether that difference exists. The owner of the snapshot takes the figure
//! (`SystemExt::get_used_memory`) and hands it in.

use crate::brightness::{levels_of, ratio_level, Brightness, SCALE};
use crate::metrics::{
    activity, any_positive, memory, temperature, temperature_level, usage, usage_levels,
    views_of, Sensor, TEMPERATURE_CEILING,
};
use crate::sampler::Readings;
use sysinfo::{ComponentExt, NetworkExt, NetworksExt, ProcessorExt, System, SystemExt};
use vstd::multiset::Multiset;
use vstd::prelude::*;

verus! {

/// `sysinfo::System`: the snapshot of the machine that a refresh fills. Nothing of its
/// inside is visible here; what it holds is named below.
#[verifier::external_type_specification]
#[verifier::external_body]
pub struct ExSystem(System);

/// What `ProcessorExt::get_cpu_usage` returns for each processor that the snapshot
/// holds, in the order of `SystemExt::get_processors`: the usage in percent, as the bit
/// pattern of the single-precision number.
pub uninterp spec fn processor_usage_in(system: System) -> Seq<u32>;

/// What `SystemExt::get_total_memory` returns for the snapshot.
pub uninterp spec fn total_memory_in(system: System) -> u64;

/// What `NetworkExt::get_transmitted` returns for the interfaces that the snapshot
/// holds: the bytes sent between the last two refreshes, one number for each interface.
pub uninterp spec fn transmitted_in(system: System) -> Multiset<u64>;

/// What `NetworkExt::get_received` returns for the interfaces that the snapshot holds:
/// the bytes received between the last two refreshes, one number for each interface.
pub uninterp spec fn received_in(system: System) -> Multiset<u64>;

/// What `NetworkExt::get_errors_on_transmitted` returns for the interfaces that the
/// snapshot holds, one number for each interface.
pub uninterp spec fn transmit_errors_in(system: System) -> Multiset<u64>;

/// What `NetworkExt::get_errors_on_received` returns for the interfaces that the
/// snapshot holds, one number for each interface.
pub uninterp spec fn receive_errors_in(system: System) -> Multiset<u64>;

/// What `ComponentExt::get_label` and `ComponentExt::get_temperature` return for each
/// component that the snapshot holds, in the order of `SystemExt::get_components`: the
/// label's characters, and the temperature in degrees as the bit pattern of the
/// single-precision number.
pub uninterp spec fn sensors_in(system: System) -> Seq<(Seq<char>, u32)>;

/// `ProcessorExt::get_cpu_usage` of each processor in `SystemExt::get_processors`, in
/// that order. Both read fields of the snapshot; the contract names what they hold and
/// claims nothing of the values.
#[verifier::external_body]
fn processor_usage(system: &System) -> (readings: Vec<u32>)
    ensures
        readings@ == processor_usage_in(*system),
{
    system.get_processors().iter().map(|processor| processor.get_cpu_usage().to_bits()).collect()
}

/// `SystemExt::get_total_memory`, which reads a field of the snapshot. The contract
/// names it and claims nothing of the value.
#[verifier::external_body]
fn total_memory(system: &System) -> (amount: u64)
    ensures
        amount == total_memory_in(*system),
{
    system.get_total_memory()
}

/// `NetworkExt::get_transmitted` of each interface in `SystemExt::get_networks`. The
/// interfaces are kept in a hash map, so the contract claims which numbers come out and
/// how often, not in which order.
#[verifier::external_body]
fn transmitted(system: &System) -> (deltas: Vec<u64>)
    ensures
        deltas@.to_multiset() == transmitted_in(*system),
{
    system.get_networks().iter().map(|(_, interface)| interface.get_transmitted()).collect()
}

/// `NetworkExt::get_received` of each interface in `SystemExt::get_networks`; which
/// numbers come out and how often, not in which order.
#[verifier::external_body]
fn received(system: &System) -> (deltas: Vec<u64>)
    ensures
        deltas@.to_multiset() == received_in(*system),
{
    system.get_networks().iter().map(|(_, interface)| interface.get_received()).collect()
}

/// `NetworkExt::get_errors_on_transmitted` of each interface in
/// `SystemExt::get_networks`; which numbers come out and how often, not in which order.
#[verifier::external_body]
fn transmit_errors(system: &System) -> (deltas: Vec<u64>)
    ensures
        deltas@.to_multiset() == transmit_errors_in(*system),
{
    system.get_networks().iter().map(
        |(_, interface)| interface.get_errors_on_transmitted(),
    ).collect()
}

/// `NetworkExt::get_errors_on_received` of each interface in `SystemExt::get_networks`;
/// which numbers come out and how often, not in which order.
#[verifier::external_body]
fn receive_errors(system: &System) -> (deltas: Vec<u64>)
    ensures
        deltas@.to_multiset() == receive_errors_in(*system),
{
    system.get_networks().iter().map(
        |(_, interface)| interface.get_errors_on_received(),
    ).collect()
}

/// `ComponentExt::get_label` and `ComponentExt::get_temperature` of each component in
/// `SystemExt::get_components`, in that order, the label copied. All three read fields
/// of the snapshot; the contract names what they hold and claims nothing of the values.
#[verifier::external_body]
fn sensors(system: &System) -> (found: Vec<Sensor>)
    ensures
        views_of(found@) == sensors_in(*system),
{
    system.get_components().iter().map(
        |component|
            Sensor {
                label: component.get_label().to_owned(),
                reading: component.get_temperature().to_bits(),
            },
    ).collect()
}

/// The level of an activity pad when the interfaces counted `deltas`, in whatever order
/// they are listed.
pub open spec fn activity_of(deltas: Multiset<u64>) -> nat {
    if exists|delta: u64| delta > 0 && deltas.count(delta) > 0 {
        SCALE as nat
    } else {
        0
    }
}

/// The readings of a snapshot of which `used_memory` is in use, as the sampler takes
/// them.
pub open spec fn readings_match(readings: Readings, system: System, used_memory: u64) -> bool {
    &&& levels_of(readings.cores@) == usage_levels(processor_usage_in(system))
    &&& readings.cpu_temperature@ == temperature_level(
        sensors_in(system),
        TEMPERATURE_CEILING as nat,
    )
    &&& readings.memory_usage@ == ratio_level(
        used_memory as nat,
        total_memory_in(system) as nat,
    )
    &&& readings.network_transmit@ == activity_of(transmitted_in(system))
    &&& readings.network_receive@ == activity_of(received_in(system))
    &&& readings.network_transmit_errors@ == activity_of(transmit_errors_in(system))
    &&& readings.network_receive_errors@ == activity_of(receive_errors_in(system))
}

/// The brightness of an activity pad for the counters `deltas`, by what they hold
/// rather than by their order.
fn activity_in(deltas: &Vec<u64>) -> (level: Brightness)
    ensures
        level@ == activity_of(deltas@.to_multiset()),
{
    let level = activity(deltas);
    proof {
        broadcast use vstd::seq_lib::to_multiset_contains;

        if any_positive(deltas@) {
            let i = choose|i: int| 0 <= i < deltas@.len() && deltas@[i] > 0;
            assert(deltas@.contains(deltas@[i]));
            assert(deltas@.to_multiset().count(deltas@[i]) > 0);
        }
        if activity_of(deltas@.to_multiset()) != 0 {
            let delta = choose|delta: u64| delta > 0 && deltas@.to_multiset().count(delta) > 0;
            assert(deltas@.contains(delta));
        }
    }
    level
}

/// The usage of each processor that the snapshot holds, in the snapshot's order. The
/// snapshot stays as it is.
pub fn get_core_usage_percent(system: &mut System) -> (levels: Vec<Brightness>)
    ensures
        *final(system) == *old(system),
        levels_of(levels@) == usage_levels(processor_usage_in(*old(system))),
{
    let readings = processor_usage(system);
    usage(&readings)
}

/// The share of the machine's memory that is in use: `used`, the figure that the
/// snapshot gives for the memory in use, over the total that the snapshot holds. Off
/// when the snapshot knows of no memory. The snapshot stays as it is.
pub fn get_memory_usage_percent(system: &mut System, used: u64) -> (level: Brightness)
    ensures
        *final(system) == *old(system),
        level@ == ratio_level(used as nat, total_memory_in(*old(system)) as nat),
{
    let total = total_memory(system);
    memory(used, total)
}

/// Fully on when any interface sent anything between the last two refreshes, else off.
/// The snapshot stays as it is.
pub fn get_network_transmitted_percent(system: &mut System) -> (level: Brightness)
    ensures
        *final(system) == *old(system),
        level@ == activity_of(transmitted_in(*old(system))),
{
    let deltas = transmitted(system);
    activity_in(&deltas)
}

/// The temperature of the picked sensor against the temperature ceiling; off when the
/// snapshot holds no sensor. The snapshot stays as it is.
pub fn get_cpu_temperature_percent(system: &mut System) -> (level: Brightness)
    ensures
        *final(system) == *old(system),
        level@ == temperature_level(sensors_in(*old(system)), TEMPERATURE_CEILING as nat),
{
    let found = sensors(system);
    temperature(&found, TEMPERATURE_CEILING)
}

/// Every quantity of the snapshot at once, for the sampler; `used_memory` is the figure
/// that the snapshot gives for the memory in use. The snapshot stays as it is.
pub fn read(system: &mut System, used_memory: u64) -> (readings: Readings)
    ensures
        *final(system) == *old(system),
        readings_match(readings, *old(system), used_memory),
{
    let cores = get_core_usage_percent(system);
    let cpu_temperature = get_cpu_temperature_percent(system);
    let memory_usage = get_memory_usage_percent(system, used_memory);
    let network_transmit = get_network_transmitted_percent(system);
    let network_receive = activity_in(&received(system));
    let network_transmit_errors = activity_in(&transmit_errors(system));
    let network_receive_errors = activity_in(&receive_errors(system));
    Readings {
        cores,
        cpu_temperature,
        memory_usage,
        network_transmit,
        network_receive,
        network_transmit_errors,
        network_receive_errors,
    }
}

} // verus!
