use vstd::prelude::*;

verus! {

/// A radio that the link layer drives.
///
/// `frequency` is the carrier frequency, in Hz, that the radio is tuned to;
/// an implementation tunes to the frequency it is given.
pub trait VLPPhy {
    spec fn frequency(&self) -> u32;

    fn set_frequency(&mut self, freq: u32)
        ensures
            final(self).frequency() == freq,
    ;
}

/// The link layer over a radio.
pub struct PVLP<T: VLPPhy>(pub T);

impl<T: VLPPhy> PVLP<T> {
    /// Tunes the radio to `freq`.
    pub fn set_frequency(&mut self, freq: u32)
        ensures
            final(self).0.frequency() == freq,
    {
        self.0.set_frequency(freq);
    }
}

/// The channels the link hops over, in Hz.
pub const FREQ_LIST: [u32; 8] = [
    902300000u32,
    903900000u32,
    905500000u32,
    907100000u32,
    908700000u32,
    910300000u32,
    911900000u32,
    913500000u32,
];

/// Milliseconds the link stays on a channel.
pub const HOP_INTERVAL_MS: u32 = 17000;

/// The channel of time slot `slot`: the list is walked round and round.
pub fn hop_frequency(slot: usize) -> (r: u32)
    ensures
        r == FREQ_LIST@[(slot % 8) as int],
{
    FREQ_LIST[slot % 8]
}

/// The channel a slave listens on, and for how many milliseconds: before it
/// has heard the master, the first channel for as long as it takes; after,
/// the channel of the master's current slot until that slot ends, given the
/// slot and the milliseconds gone in it.
pub fn slave_frequency(slot: Option<(usize, u32)>) -> (r: (u32, u32))
    requires
        slot matches Some((_, ms)) ==> ms <= HOP_INTERVAL_MS,
    ensures
        match slot {
            None => r == (FREQ_LIST@[0], 0xFFFFFu32),
            Some((s, ms)) => r == (FREQ_LIST@[(s % 8) as int], (HOP_INTERVAL_MS - ms) as u32),
        },
{
    match slot {
        None => (FREQ_LIST[0], 0xFFFFF),
        Some((s, ms)) => (hop_frequency(s), HOP_INTERVAL_MS - ms),
    }
}

} // verus!
