//! From what the telemetry source reports to the brightness of a pad, one quantity at a
//! time.
//!
//! Usage is reported in percent and temperature in degrees; both become a fraction of a
//! ceiling. Memory is the fraction of the total that is in use. Network activity is
//! all or nothing: fully on when anything moved since the last refresh.

use crate::brightness::{levels_of, ratio_level, Brightness, SCALE};
use crate::discovery::{contains, contains_bytes};
use crate::reading::reading_level;
use vstd::prelude::*;
use vstd::utf8::encode_utf8;

verus! {

/// The usage, in percent, at which a processor shows fully on.
pub const USAGE_CEILING: u32 = 100;

/// The temperature, in degrees, at which the temperature pad shows fully on.
pub const TEMPERATURE_CEILING: u32 = 100;

/// The label of the sensor to read the processor's temperature from, where there is one.
pub const PREFERRED_SENSOR: &'static str = "Package id";

/// A temperature sensor as the telemetry source reports it: its label, and its reading
/// in degrees as the bit pattern of a single-precision number. Its view is the pair of
/// the label's characters and the reading.
pub struct Sensor {
    pub label: String,
    pub reading: u32,
}

impl View for Sensor {
    type V = (Seq<char>, u32);

    open spec fn view(&self) -> (Seq<char>, u32) {
        (self.label@, self.reading)
    }
}

/// The view of each sensor in turn.
pub open spec fn views_of(sensors: Seq<Sensor>) -> Seq<(Seq<char>, u32)> {
    sensors.map_values(|sensor: Sensor| sensor@)
}

/// The label contains the preferred label.
pub open spec fn is_preferred(label: Seq<char>) -> bool {
    contains(encode_utf8(label), encode_utf8(PREFERRED_SENSOR@))
}

/// Sensor `i` is the one to read: the first preferred sensor, or the first sensor of all
/// when none is preferred.
pub open spec fn is_pick(sensors: Seq<(Seq<char>, u32)>, i: int) -> bool {
    &&& 0 <= i < sensors.len()
    &&& forall|j: int| 0 <= j < i ==> !is_preferred((#[trigger] sensors[j]).0)
    &&& (is_preferred(sensors[i].0) || (i == 0 && forall|j: int|
        0 <= j < sensors.len() ==> !is_preferred((#[trigger] sensors[j]).0)))
}

/// The sequence `s` with the items at `i` and `j` in each other's place.
pub open spec fn exchanged<T>(s: Seq<T>, i: int, j: int) -> Seq<T> {
    s.update(i, s[j]).update(j, s[i])
}

/// The level of each processor in turn: its usage in percent against the usage ceiling.
pub open spec fn usage_levels(readings: Seq<u32>) -> Seq<nat> {
    readings.map_values(|reading: u32| reading_level(reading, USAGE_CEILING as nat))
}

/// Something moved: one of the counters went up since the last refresh.
pub open spec fn any_positive(deltas: Seq<u64>) -> bool {
    exists|i: int| 0 <= i < deltas.len() && deltas[i] > 0
}

/// The level of an activity pad: all or nothing.
pub open spec fn activity_level(deltas: Seq<u64>) -> nat {
    if any_positive(deltas) {
        SCALE as nat
    } else {
        0
    }
}

/// The level of the temperature pad: the picked sensor's reading against `ceiling`, or
/// off when there is no sensor.
pub open spec fn temperature_level(sensors: Seq<(Seq<char>, u32)>, ceiling: nat) -> nat {
    if sensors.len() == 0 {
        0
    } else {
        reading_level(sensors[choose|i: int| is_pick(sensors, i)].1, ceiling)
    }
}

/// The brightness of an activity pad does not depend on the order in which the
/// interfaces are listed.
pub proof fn lemma_activity_ignores_order(deltas: Seq<u64>, reordered: Seq<u64>)
    requires
        deltas.to_multiset() == reordered.to_multiset(),
    ensures
        activity_level(deltas) == activity_level(reordered),
{
    broadcast use vstd::seq_lib::to_multiset_contains;

    if any_positive(deltas) {
        let i = choose|i: int| 0 <= i < deltas.len() && deltas[i] > 0;
        assert(deltas.contains(deltas[i]));
        assert(reordered.to_multiset().count(deltas[i]) > 0);
        assert(reordered.contains(deltas[i]));
    }
    if any_positive(reordered) {
        let i = choose|i: int| 0 <= i < reordered.len() && reordered[i] > 0;
        assert(reordered.contains(reordered[i]));
        assert(deltas.to_multiset().count(reordered[i]) > 0);
        assert(deltas.contains(reordered[i]));
    }
}

/// The levels follow the order of the readings: when two processors are reported in
/// each other's place, their levels change places and all others stay. Where the two
/// stand for different levels, the levels as a whole are no longer what they were.
pub proof fn lemma_usage_follows_order(readings: Seq<u32>, i: int, j: int)
    requires
        0 <= i < readings.len(),
        0 <= j < readings.len(),
    ensures
        usage_levels(exchanged(readings, i, j)) == exchanged(usage_levels(readings), i, j),
        usage_levels(readings)[i] != usage_levels(readings)[j] ==> usage_levels(
            exchanged(readings, i, j),
        ) != usage_levels(readings),
{
    let before = usage_levels(readings);
    let after = usage_levels(exchanged(readings, i, j));
    assert(after =~= exchanged(before, i, j));
    if before[i] != before[j] {
        assert(after[i] == before[j]);
    }
}

/// At most one sensor is the one to read.
pub proof fn lemma_pick_is_unique(sensors: Seq<(Seq<char>, u32)>, i: int, j: int)
    requires
        is_pick(sensors, i),
        is_pick(sensors, j),
    ensures
        i == j,
{
}

/// The brightness of each processor, in the order of the readings: its usage in percent
/// against the usage ceiling.
pub fn usage(readings: &Vec<u32>) -> (levels: Vec<Brightness>)
    ensures
        levels_of(levels@) == usage_levels(readings@),
{
    let mut levels: Vec<Brightness> = Vec::new();
    let mut i: usize = 0;
    while i < readings.len()
        invariant
            i <= readings.len(),
            levels.len() == i,
            forall|k: int|
                0 <= k < i ==> (#[trigger] levels[k])@ == reading_level(
                    readings[k],
                    USAGE_CEILING as nat,
                ),
        decreases readings.len() - i,
    {
        levels.push(Brightness::from_reading(readings[i], USAGE_CEILING));
        i += 1;
    }
    assert(levels_of(levels@) =~= usage_levels(readings@));
    levels
}

/// The brightness of memory pressure: the share of `total` that is `used`, off when no
/// total is known and fully on when more is in use than there is in total.
pub fn memory(used: u64, total: u64) -> (b: Brightness)
    ensures
        b@ == ratio_level(used as nat, total as nat),
{
    Brightness::from_ratio(used, total)
}

/// The brightness of an activity pad, from what each interface counted since the last
/// refresh: fully on when any of them counted anything, else off.
pub fn activity(deltas: &Vec<u64>) -> (b: Brightness)
    ensures
        b@ == activity_level(deltas@),
{
    let mut i: usize = 0;
    while i < deltas.len()
        invariant
            i <= deltas.len(),
            forall|k: int| 0 <= k < i ==> deltas[k] == 0,
        decreases deltas.len() - i,
    {
        if deltas[i] > 0 {
            return Brightness::full();
        }
        i += 1;
    }
    Brightness::off()
}

/// The sensor to read the processor's temperature from: the first whose label contains
/// the preferred label, else the first of all; `None` only when there is no sensor.
pub fn pick_sensor(sensors: &Vec<Sensor>) -> (picked: Option<usize>)
    ensures
        match picked {
            Some(i) => is_pick(views_of(sensors@), i as int),
            None => sensors.len() == 0,
        },
{
    if sensors.len() == 0 {
        return None;
    }
    let mut i: usize = 0;
    while i < sensors.len()
        invariant
            i <= sensors.len(),
            forall|j: int| 0 <= j < i ==> !is_preferred((#[trigger] views_of(sensors@)[j]).0),
        decreases sensors.len() - i,
    {
        if contains_bytes(sensors[i].label.as_str().as_bytes(), PREFERRED_SENSOR.as_bytes()) {
            return Some(i);
        }
        i += 1;
    }
    Some(0)
}

/// The brightness of the temperature pad: the picked sensor's reading against `ceiling`,
/// off when there is no sensor to read.
pub fn temperature(sensors: &Vec<Sensor>, ceiling: u32) -> (b: Brightness)
    ensures
        b@ == temperature_level(views_of(sensors@), ceiling as nat),
{
    match pick_sensor(sensors) {
        Some(i) => {
            proof {
                let chosen = choose|k: int| is_pick(views_of(sensors@), k);
                lemma_pick_is_unique(views_of(sensors@), i as int, chosen);
            }
            Brightness::from_reading(sensors[i].reading, ceiling)
        },
        None => Brightness::off(),
    }
}

} // verus!
