//! The metric sampler: from one refresh of the telemetry to the value of each pad.
//!
//! Which quantity a pad shows is laid down once, at startup. After each refresh the
//! sampler works out one value for every pad that shows telemetry; the pad of the
//! heartbeat is not the sampler's to write.
//!
//! The usage of the processor as a whole is the mean of the usage of its cores.

use crate::brightness::{levels_of, mean_level, Brightness};
use crate::metrics::exchanged;
use crate::pad::{lemma_note_identifies_pad, pad_index, Pad};
use vstd::prelude::*;

verus! {

/// Milliseconds between two refreshes of the telemetry.
pub const REFRESH_INTERVAL_MILLIS: u64 = 40;

/// What a pad shows.
#[derive(Clone, Copy, Debug, PartialEq, Eq, Structural)]
pub enum Source {
    /// Usage of the processor as a whole.
    CpuUsage,
    /// Usage of one core, by its position in the telemetry's order.
    Core(usize),
    CpuTemperature,
    MemoryUsage,
    NetworkTransmit,
    NetworkReceive,
    NetworkTransmitErrors,
    NetworkReceiveErrors,
    /// The heartbeat, which the clock publishes.
    Clock,
}

/// One refresh of the telemetry, every quantity already a brightness.
pub struct Readings {
    /// Usage of each core, in the telemetry's order.
    pub cores: Vec<Brightness>,
    pub cpu_temperature: Brightness,
    pub memory_usage: Brightness,
    pub network_transmit: Brightness,
    pub network_receive: Brightness,
    pub network_transmit_errors: Brightness,
    pub network_receive_errors: Brightness,
}

/// Which quantity each pad shows.
#[derive(Clone, Copy, Debug)]
pub struct Layout {
    sources: [Source; 8],
}

/// The panel's own layout: the processor, its temperature, memory and network traffic
/// on the first four pads, and the first four cores, in their order, on the last four.
pub open spec fn standard_source(pad: Pad) -> Source {
    match pad {
        Pad::Pad1 => Source::CpuUsage,
        Pad::Pad2 => Source::CpuTemperature,
        Pad::Pad3 => Source::MemoryUsage,
        Pad::Pad4 => Source::NetworkTransmit,
        Pad::Pad5 => Source::Core(0),
        Pad::Pad6 => Source::Core(1),
        Pad::Pad7 => Source::Core(2),
        Pad::Pad8 => Source::Core(3),
    }
}

/// The level that the sampler publishes for a pad that shows `source`: `None` for the
/// heartbeat, and off for a core that the telemetry does not report.
pub open spec fn channel_level(readings: Readings, source: Source) -> Option<nat> {
    match source {
        Source::CpuUsage => Some(mean_level(levels_of(readings.cores@))),
        Source::Core(k) => Some(
            if k < readings.cores@.len() {
                readings.cores@[k as int]@
            } else {
                0
            },
        ),
        Source::CpuTemperature => Some(readings.cpu_temperature@),
        Source::MemoryUsage => Some(readings.memory_usage@),
        Source::NetworkTransmit => Some(readings.network_transmit@),
        Source::NetworkReceive => Some(readings.network_receive@),
        Source::NetworkTransmitErrors => Some(readings.network_transmit_errors@),
        Source::NetworkReceiveErrors => Some(readings.network_receive_errors@),
        Source::Clock => None,
    }
}

/// The level of a published value, if there is one.
pub open spec fn level_of(value: Option<Brightness>) -> Option<nat> {
    match value {
        Some(b) => Some(b@),
        None => None,
    }
}

impl Layout {
    /// What `pad` shows.
    pub closed spec fn source_of(&self, pad: Pad) -> Source {
        self.sources@[pad_index(pad)]
    }

    /// The layout that shows `sources`, the first on the first pad and so on.
    pub fn new(sources: [Source; 8]) -> (layout: Layout)
        ensures
            forall|pad: Pad| #[trigger] layout.source_of(pad) == sources@[pad_index(pad)],
    {
        Layout { sources }
    }

    /// The panel's own layout.
    pub fn standard() -> (layout: Layout)
        ensures
            forall|pad: Pad| #[trigger] layout.source_of(pad) == standard_source(pad),
    {
        Layout {
            sources: [
                Source::CpuUsage,
                Source::CpuTemperature,
                Source::MemoryUsage,
                Source::NetworkTransmit,
                Source::Core(0),
                Source::Core(1),
                Source::Core(2),
                Source::Core(3),
            ],
        }
    }

    /// What `pad` shows.
    pub fn source(&self, pad: Pad) -> (source: Source)
        ensures
            source == self.source_of(pad),
    {
        self.sources[pad.index()]
    }
}

/// The value to publish for a pad that shows `source`.
pub fn channel_value(readings: &Readings, source: Source) -> (value: Option<Brightness>)
    ensures
        level_of(value) == channel_level(*readings, source),
{
    match source {
        Source::CpuUsage => Some(Brightness::mean(&readings.cores)),
        Source::Core(k) => {
            if k < readings.cores.len() {
                Some(readings.cores[k])
            } else {
                Some(Brightness::off())
            }
        },
        Source::CpuTemperature => Some(readings.cpu_temperature),
        Source::MemoryUsage => Some(readings.memory_usage),
        Source::NetworkTransmit => Some(readings.network_transmit),
        Source::NetworkReceive => Some(readings.network_receive),
        Source::NetworkTransmitErrors => Some(readings.network_transmit_errors),
        Source::NetworkReceiveErrors => Some(readings.network_receive_errors),
        Source::Clock => None,
    }
}

/// The values to publish after one refresh: one for each pad, in the order of the pads,
/// and none for a pad that shows the heartbeat.
pub fn sample(readings: &Readings, layout: &Layout) -> (values: Vec<Option<Brightness>>)
    ensures
        values.len() == 8,
        forall|pad: Pad|
            level_of(#[trigger] values[pad_index(pad)]) == channel_level(
                *readings,
                layout.source_of(pad),
            ),
{
    let pads = [
        Pad::Pad1,
        Pad::Pad2,
        Pad::Pad3,
        Pad::Pad4,
        Pad::Pad5,
        Pad::Pad6,
        Pad::Pad7,
        Pad::Pad8,
    ];
    let mut values: Vec<Option<Brightness>> = Vec::new();
    let mut i: usize = 0;
    while i < 8
        invariant
            i <= 8,
            values.len() == i,
            forall|k: int| 0 <= k < 8 ==> pad_index(#[trigger] pads@[k]) == k,
            forall|k: int|
                0 <= k < i ==> level_of(#[trigger] values[k]) == channel_level(
                    *readings,
                    layout.source_of(pads@[k]),
                ),
        decreases 8 - i,
    {
        values.push(channel_value(readings, layout.source(pads[i])));
        i += 1;
    }
    proof {
        assert forall|pad: Pad|
            level_of(#[trigger] values[pad_index(pad)]) == channel_level(
                *readings,
                layout.source_of(pad),
            ) by {
            lemma_note_identifies_pad(pad, pads@[pad_index(pad)]);
        }
    }
    values
}

/// In the panel's own layout the first four cores stand on the last four pads, one core
/// to a pad and in the telemetry's order.
pub proof fn lemma_cores_in_order(readings: Readings, core: int)
    requires
        0 <= core < 4,
        core < readings.cores@.len(),
    ensures
        exists|pad: Pad|
            pad_index(pad) == 4 + core && standard_source(pad) == Source::Core(core as usize)
                && channel_level(readings, standard_source(pad)) == Some(
                readings.cores@[core]@,
            ),
{
    let pad = if core == 0 {
        Pad::Pad5
    } else if core == 1 {
        Pad::Pad6
    } else if core == 2 {
        Pad::Pad7
    } else {
        Pad::Pad8
    };
    assert(pad_index(pad) == 4 + core && standard_source(pad) == Source::Core(core as usize)
        && channel_level(readings, standard_source(pad)) == Some(readings.cores@[core]@));
}

/// When the telemetry reports two cores in each other's place, the pads that show them
/// change places too, and the pads of all other cores show what they showed. Where the
/// two cores stand at different levels, each of their pads shows something else than
/// before.
pub proof fn lemma_core_order_matters(
    readings: Readings,
    swapped: Readings,
    first: usize,
    second: usize,
    other: usize,
)
    requires
        first < readings.cores@.len(),
        second < readings.cores@.len(),
        swapped.cores@ == exchanged(readings.cores@, first as int, second as int),
        other != first,
        other != second,
    ensures
        channel_level(swapped, Source::Core(first)) == channel_level(
            readings,
            Source::Core(second),
        ),
        channel_level(swapped, Source::Core(second)) == channel_level(
            readings,
            Source::Core(first),
        ),
        channel_level(swapped, Source::Core(other)) == channel_level(
            readings,
            Source::Core(other),
        ),
        readings.cores@[first as int]@ != readings.cores@[second as int]@ ==> {
            &&& channel_level(swapped, Source::Core(first)) != channel_level(
                readings,
                Source::Core(first),
            )
            &&& channel_level(swapped, Source::Core(second)) != channel_level(
                readings,
                Source::Core(second),
            )
        },
{
}

} // verus!
