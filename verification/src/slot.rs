//! The store between one producer and one driver: the latest brightness of one pad.
//!
//! A slot is a plain cell. To write is to replace what it holds; to read is to copy it
//! out. There is no history and no queue. Whoever shares a slot between a producer and a
//! driver keeps it behind a lock, so that every access is one of these two operations as
//! a whole and the accesses of both sides fall into one order: a history. What is stated
//! here of histories is stated of every such order. How long an access waits for the
//! lock is not a matter of the slot.

use crate::brightness::Brightness;
use vstd::prelude::*;

verus! {

/// The latest brightness published for one pad; its view is the number of millionths.
#[derive(Clone, Copy, Debug, PartialEq, Eq, Structural)]
pub struct Slot {
    value: Brightness,
}

impl View for Slot {
    type V = nat;

    closed spec fn view(&self) -> nat {
        self.value@
    }
}

impl Slot {
    /// A slot as it is at startup: off.
    pub fn new() -> (slot: Slot)
        ensures
            slot@ == 0,
    {
        Slot { value: Brightness::off() }
    }

    /// Publishes `value`: the slot holds it from now on, whatever it held before.
    pub fn write(&mut self, value: Brightness)
        ensures
            final(self)@ == value@,
    {
        self.value = value;
    }

    /// The brightness that was published last, or off if none was.
    pub fn read(&self) -> (value: Brightness)
        ensures
            value@ == self@,
    {
        self.value
    }
}

/// One access to a slot: the producer publishes a level, or the driver observes.
pub enum Access {
    Publish(nat),
    Observe,
}

/// What a slot holds after `history`, when it held `start` before.
pub open spec fn held(start: nat, history: Seq<Access>) -> nat
    decreases history.len(),
{
    if history.len() == 0 {
        start
    } else {
        match history.last() {
            Access::Publish(level) => level,
            Access::Observe => held(start, history.drop_last()),
        }
    }
}

/// What the driver saw at each of its observations in `history`, in order.
pub open spec fn observed(start: nat, history: Seq<Access>) -> Seq<nat>
    decreases history.len(),
{
    if history.len() == 0 {
        Seq::<nat>::empty()
    } else {
        match history.last() {
            Access::Publish(_) => observed(start, history.drop_last()),
            Access::Observe => observed(start, history.drop_last()).push(
                held(start, history.drop_last()),
            ),
        }
    }
}

/// Where in `history` the publication stands that a slot holds after it, counted from
/// zero; minus one when `history` publishes nothing.
pub open spec fn latest(history: Seq<Access>) -> int
    decreases history.len(),
{
    if history.len() == 0 {
        -1
    } else {
        match history.last() {
            Access::Publish(_) => history.len() - 1,
            Access::Observe => latest(history.drop_last()),
        }
    }
}

/// The level that stands at `position` of `history`: the one published there, or
/// `start` where nothing is published there.
pub open spec fn level_at(start: nat, history: Seq<Access>, position: int) -> nat {
    if 0 <= position < history.len() {
        match history[position] {
            Access::Publish(level) => level,
            Access::Observe => start,
        }
    } else {
        start
    }
}

/// For each observation in `history`, in order, where the publication stands that the
/// driver saw; minus one where it saw the slot as it was at first.
pub open spec fn seen(history: Seq<Access>) -> Seq<int>
    decreases history.len(),
{
    if history.len() == 0 {
        Seq::<int>::empty()
    } else {
        match history.last() {
            Access::Publish(_) => seen(history.drop_last()),
            Access::Observe => seen(history.drop_last()).push(latest(history.drop_last())),
        }
    }
}

/// The levels that `history` publishes never fall, and none is below `start`.
pub open spec fn rising(start: nat, history: Seq<Access>) -> bool {
    &&& forall|i: int|
        0 <= i < history.len() ==> (#[trigger] history[i] matches Access::Publish(level)
            ==> start <= level)
    &&& forall|i: int, j: int|
        0 <= i <= j < history.len() ==> (#[trigger] history[i] matches Access::Publish(earlier)
            ==> (#[trigger] history[j] matches Access::Publish(later) ==> earlier <= later))
}

/// A slot holds the level of the last publication, whole and as it was published, or
/// what it held at first when nothing was published: a publication that is complete is
/// the one that counts, and none before it.
pub proof fn lemma_holds_the_latest(start: nat, history: Seq<Access>)
    ensures
        -1 <= latest(history) < history.len(),
        latest(history) >= 0 ==> history[latest(history)] is Publish,
        forall|k: int| latest(history) < k < history.len() ==> #[trigger] history[k] is Observe,
        held(start, history) == level_at(start, history, latest(history)),
    decreases history.len(),
{
    if history.len() > 0 {
        let earlier = history.drop_last();
        lemma_holds_the_latest(start, earlier);
        assert forall|k: int| 0 <= k < earlier.len() implies #[trigger] earlier[k]
            == history[k] by {}
        match history.last() {
            Access::Publish(_) => {},
            Access::Observe => {
                assert forall|k: int|
                    latest(history) < k < history.len() implies #[trigger] history[k]
                    is Observe by {
                    if k < earlier.len() {
                        assert(earlier[k] is Observe);
                    }
                }
            },
        }
    }
}

/// Every observation is of one publication, whole, or of the slot as it was at first;
/// it is the last publication before the observation; and from one observation to the
/// next the driver never goes back to an earlier publication.
pub proof fn lemma_observes_in_order(start: nat, history: Seq<Access>)
    ensures
        seen(history).len() == observed(start, history).len(),
        forall|k: int|
            0 <= k < seen(history).len() ==> {
                &&& -1 <= #[trigger] seen(history)[k] <= latest(history)
                &&& observed(start, history)[k] == level_at(start, history, seen(history)[k])
            },
        forall|a: int, b: int|
            0 <= a <= b < seen(history).len() ==> #[trigger] seen(history)[a]
                <= #[trigger] seen(history)[b],
    decreases history.len(),
{
    if history.len() > 0 {
        let earlier = history.drop_last();
        lemma_observes_in_order(start, earlier);
        lemma_holds_the_latest(start, earlier);
        lemma_holds_the_latest(start, history);
        assert forall|k: int| 0 <= k < earlier.len() implies #[trigger] earlier[k]
            == history[k] by {}
        assert forall|k: int| 0 <= k < seen(earlier).len() implies level_at(
            start,
            earlier,
            #[trigger] seen(earlier)[k],
        ) == level_at(start, history, seen(earlier)[k]) by {}
        match history.last() {
            Access::Publish(_) => {
                assert(seen(history) == seen(earlier));
                assert(observed(start, history) == observed(start, earlier));
            },
            Access::Observe => {
                assert(seen(history) == seen(earlier).push(latest(earlier)));
                assert(observed(start, history) == observed(start, earlier).push(
                    held(start, earlier),
                ));
                assert(latest(history) == latest(earlier));
            },
        }
    }
}

/// While the published levels rise, so do the observed ones, and none of them passes
/// what the slot holds at the end.
pub proof fn lemma_observations_rise(start: nat, history: Seq<Access>)
    requires
        rising(start, history),
    ensures
        forall|i: int, j: int|
            0 <= i <= j < observed(start, history).len() ==> #[trigger] observed(
                start,
                history,
            )[i] <= #[trigger] observed(start, history)[j],
        forall|i: int|
            0 <= i < observed(start, history).len() ==> start <= #[trigger] observed(
                start,
                history,
            )[i] <= held(start, history),
        start <= held(start, history),
    decreases history.len(),
{
    if history.len() > 0 {
        let earlier = history.drop_last();
        let last = history.len() - 1;
        assert forall|i: int| 0 <= i < earlier.len() implies #[trigger] earlier[i]
            == history[i] by {}
        assert(rising(start, earlier));
        lemma_observations_rise(start, earlier);
        lemma_holds_the_latest(start, earlier);
        match history.last() {
            Access::Publish(level) => {
                assert(history[last] == Access::Publish(level));
                if latest(earlier) >= 0 {
                    assert(history[latest(earlier)] is Publish);
                    assert(held(start, earlier) <= level);
                }
                assert(observed(start, history) == observed(start, earlier));
            },
            Access::Observe => {
                assert(observed(start, history) == observed(start, earlier).push(
                    held(start, earlier),
                ));
                assert(held(start, history) == held(start, earlier));
            },
        }
    }
}

} // verus!
