use vstd::prelude::*;

use crate::delta_factory as plain_delta;
use crate::delta_logger::delta_factory::Deltable;
use crate::delta_logger2::bitvec_serialize_traits::{
    BitRoundTrip, BitSliceWritable, FromBitSlice, SmallBits,
};

verus! {

/// A timestamp counted in steps of a fixed resolution; the delta to a later
/// timestamp is the number of steps between them, when it fits in a byte.
#[derive(Debug, Clone, Copy, PartialEq, Eq, Structural)]
pub struct TimestampTicks(pub u64);

/// The steps from `earlier` to `later`, when `later` is not before it and
/// they fit in a byte.
pub open spec fn tick_delta(later: u64, earlier: u64) -> Option<u8> {
    if earlier <= later && later - earlier <= 255 {
        Some((later - earlier) as u8)
    } else {
        None
    }
}

/// `t` moved on by `d` steps, unless that leaves the `u64` range.
pub open spec fn ticks_after(t: u64, d: u8) -> Option<TimestampTicks> {
    if t + d <= u64::MAX {
        Some(TimestampTicks((t + d) as u64))
    } else {
        None
    }
}

fn checked_tick_delta(later: u64, earlier: u64) -> (r: Option<u8>)
    ensures
        r == tick_delta(later, earlier),
{
    if earlier <= later && later - earlier <= 255 {
        Some((later - earlier) as u8)
    } else {
        None
    }
}

fn checked_ticks_after(t: u64, d: u8) -> (r: Option<TimestampTicks>)
    ensures
        r == ticks_after(t, d),
{
    match t.checked_add(d as u64) {
        Some(v) => Some(TimestampTicks(v)),
        None => None,
    }
}

impl Deltable for TimestampTicks {
    type DeltaType = u8;

    open spec fn spec_add_delta(&self, delta: &u8) -> Option<Self> {
        ticks_after(self.0, *delta)
    }

    open spec fn spec_subtract(&self, other: &Self) -> Option<u8> {
        tick_delta(self.0, other.0)
    }

    fn add_delta(&self, delta: &u8) -> (r: Option<Self>) {
        checked_ticks_after(self.0, *delta)
    }

    fn subtract(&self, other: &Self) -> (r: Option<u8>) {
        checked_tick_delta(self.0, other.0)
    }
}

impl plain_delta::Deltable for TimestampTicks {
    type DeltaType = u8;

    open spec fn spec_add_delta(&self, delta: &u8) -> Option<Self> {
        ticks_after(self.0, *delta)
    }

    fn add_delta(&self, delta: &u8) -> (r: Option<Self>) {
        checked_ticks_after(self.0, *delta)
    }
}

impl plain_delta::DeltaSub for TimestampTicks {
    open spec fn spec_sub(&self, other: &Self) -> Option<u8> {
        tick_delta(self.0, other.0)
    }

    fn sub(&self, other: &Self) -> (r: Option<u8>) {
        checked_tick_delta(self.0, other.0)
    }
}

impl BitSliceWritable for TimestampTicks {
    open spec fn spec_bits(&self) -> Seq<bool> {
        self.0.spec_bits()
    }

    fn write(self, data: &mut [u8], at: usize) -> (n: usize) {
        self.0.write(data, at)
    }
}

impl FromBitSlice for TimestampTicks {
    open spec fn spec_len_bits() -> nat {
        64
    }

    open spec fn spec_from_bits(bits: Seq<bool>) -> Self {
        TimestampTicks(u64::spec_from_bits(bits))
    }

    fn len_bits() -> (r: usize) {
        64
    }

    fn from_bit_slice(data: &[u8], from: usize) -> (r: Self) {
        TimestampTicks(u64::from_bit_slice(data, from))
    }
}

impl BitRoundTrip for TimestampTicks {
    proof fn lemma_round_trip(v: Self) {
        u64::lemma_round_trip(v.0);
    }
}

impl SmallBits for TimestampTicks {
    proof fn lemma_small() {
    }
}

/// A timestamp counted in steps of the log's resolution: two readings whose
/// timestamps are not a step apart are too close to log both.
pub trait StepTimestamp {
    /// The number of steps since boot.
    spec fn spec_steps(&self) -> int;

    fn steps(&self) -> (r: u64)
        ensures
            r == self.spec_steps(),
    ;
}

impl StepTimestamp for TimestampTicks {
    open spec fn spec_steps(&self) -> int {
        self.0 as int
    }

    fn steps(&self) -> (r: u64) {
        self.0
    }
}

/// Every delta that `subtract` hands out applies again: moving the earlier
/// timestamp on by it gives the later one back.
pub proof fn lemma_tick_delta_applies(later: TimestampTicks, earlier: TimestampTicks)
    ensures
        later.spec_subtract(&earlier) matches Some(d) ==> earlier.spec_add_delta(&d) == Some(later),
{
}

} // verus!
