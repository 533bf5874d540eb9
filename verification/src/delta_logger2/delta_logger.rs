use vstd::prelude::*;

use crate::bits::bits_of;
use crate::delta_factory::{
    encodable, spec_decode, spec_encode, DeltaFactory, DeltaSub, Deltable, UnDeltaFactory,
};
use crate::delta_logger::delta_logger::{
    clamp_usize, lemma_bits_of_concat, push_bytes, sum_clamped, too_close, tracks,
};
use crate::delta_logger::timestamp::StepTimestamp;
use crate::delta_logger2::bitslice_io::{
    BitArrayDeserializable, BitArrayRoundTrip, BitArraySerializable, BitSliceReader,
    BitSliceWriter,
};
use crate::delta_logger2::bitvec_serialize_traits::{BitRoundTrip, BitSliceWritable, FromBitSlice};
use crate::bits::max_view_bytes;
use crate::either::Either;

verus! {

/// The two header bits of an entry: whether the timestamp goes out whole,
/// and whether the data does. A whole timestamp always comes with whole
/// data, so `true, false` is free to mark the end of a byte.
pub open spec fn entry_header(full_timestamp: bool, full_data: bool) -> Seq<bool> {
    seq![full_timestamp, full_data]
}

/// The bits that the logger writes for a reading: the header, then the
/// timestamp, then the data.
pub open spec fn spec_log_reading<TS, D>(ts_last: Option<TS>, d_last: Option<D>, ts: TS, d: D) -> (
    Option<TS>,
    Option<D>,
    Seq<bool>,
) where
    TS: DeltaSub + BitRoundTrip,
    <TS as Deltable>::DeltaType: BitRoundTrip,
    D: DeltaSub + BitArrayRoundTrip,
    <D as Deltable>::DeltaType: BitArrayRoundTrip,
 {
    let (tn, ti) = spec_encode(ts_last, ts);
    match ti {
        Either::Left(_) => (
            Some(ts),
            d_last,
            entry_header(true, true) + ts.spec_bits() + d.spec_serialized(),
        ),
        Either::Right(dt) => {
            let (dn, di) = spec_encode(d_last, d);
            match di {
                Either::Left(_) => (
                    tn,
                    dn,
                    entry_header(false, true) + dt.spec_bits() + d.spec_serialized(),
                ),
                Either::Right(dd) => (
                    tn,
                    dn,
                    entry_header(false, false) + dt.spec_bits() + dd.spec_serialized(),
                ),
            }
        },
    }
}

/// The most bits that one entry takes.
pub open spec fn max_entry_bits<TS, D>() -> nat where
    TS: DeltaSub + BitRoundTrip,
    <TS as Deltable>::DeltaType: BitRoundTrip,
    D: DeltaSub + BitArrayRoundTrip,
    <D as Deltable>::DeltaType: BitArrayRoundTrip,
 {
    let a = 2 + TS::spec_len_bits() + <D as BitArrayDeserializable>::spec_len_bits();
    let b = 2 + <TS as Deltable>::DeltaType::spec_len_bits()
        + <D as BitArrayDeserializable>::spec_len_bits();
    let c = 2 + <TS as Deltable>::DeltaType::spec_len_bits()
        + <<D as Deltable>::DeltaType as BitArrayDeserializable>::spec_len_bits();
    let m = if a >= b {
        a
    } else {
        b
    };
    if m >= c {
        m
    } else {
        c
    }
}

/// The bit buffer of `N` bytes holds any entry behind a partial byte.
pub open spec fn capacity_fits<TS, D, const N: usize>() -> bool where
    TS: DeltaSub + BitRoundTrip,
    <TS as Deltable>::DeltaType: BitRoundTrip,
    D: DeltaSub + BitArrayRoundTrip,
    <D as Deltable>::DeltaType: BitArrayRoundTrip,
 {
    &&& N <= max_view_bytes()
    &&& 7 + max_entry_bits::<TS, D>() < 8 * N
}

/// Writes readings as full values or deltas behind two header bits.
///
/// Unlike `delta_logger::DeltaLogger`, a reading whose timestamp goes out
/// whole leaves the data factory where it was.
pub struct DeltaLogger<TS, D, const N: usize> where
    TS: DeltaSub + BitRoundTrip,
    <TS as Deltable>::DeltaType: BitRoundTrip,
    D: DeltaSub + BitArrayRoundTrip,
    <D as Deltable>::DeltaType: BitArrayRoundTrip,
 {
    factory: DeltaFactory<D>,
    timestamp_factory: DeltaFactory<TS>,
    bit_writer: BitSliceWriter<N>,
    output: Vec<u8>,
}

impl<TS, D, const N: usize> DeltaLogger<TS, D, N> where
    TS: DeltaSub + BitRoundTrip,
    <TS as Deltable>::DeltaType: BitRoundTrip,
    D: DeltaSub + BitArrayRoundTrip,
    <D as Deltable>::DeltaType: BitArrayRoundTrip,
 {
    /// Every bit written so far: the output queue, then the partial byte.
    pub closed spec fn stream(&self) -> Seq<bool> {
        bits_of(self.output@) + self.bit_writer.pending()
    }

    pub closed spec fn output(&self) -> Seq<u8> {
        self.output@
    }

    pub closed spec fn last_timestamp(&self) -> Option<TS> {
        self.timestamp_factory.last()
    }

    pub closed spec fn last_data(&self) -> Option<D> {
        self.factory.last()
    }

    pub closed spec fn wf(&self) -> bool {
        &&& capacity_fits::<TS, D, N>()
        &&& self.bit_writer.wf()
        &&& self.bit_writer.bit_len() < 8
    }

    pub fn new() -> (r: Self)
        requires
            capacity_fits::<TS, D, N>(),
        ensures
            r.wf(),
            r.stream() == Seq::<bool>::empty(),
            r.output() == Seq::<u8>::empty(),
            r.last_timestamp() is None,
            r.last_data() is None,
    {
        let r = Self {
            factory: DeltaFactory::new(),
            timestamp_factory: DeltaFactory::new(),
            bit_writer: BitSliceWriter::default(),
            output: Vec::new(),
        };
        assert(bits_of(r.output@) =~= Seq::<bool>::empty());
        assert(r.stream() =~= Seq::<bool>::empty());
        r
    }

    /// Whether a buffer of `N` bytes fits this logger's entries.
    pub fn capacity_ok() -> (r: bool)
        ensures
            r == capacity_fits::<TS, D, N>(),
    {
        if !crate::bits::fits_bit_view(N) {
            return false;
        }
        let ts_full = <TS as FromBitSlice>::len_bits() as u128;
        let ts_delta = <<TS as Deltable>::DeltaType as FromBitSlice>::len_bits() as u128;
        let d_full = <D as BitArrayDeserializable>::len_bits() as u128;
        let d_delta = <<D as Deltable>::DeltaType as BitArrayDeserializable>::len_bits() as u128;
        let a = 2 + ts_full + d_full;
        let b = 2 + ts_delta + d_full;
        let c = 2 + ts_delta + d_delta;
        let m = if a >= b {
            a
        } else {
            b
        };
        let m = if m >= c {
            m
        } else {
            c
        };
        7 + m < 8 * (N as u128)
    }

    /// The last timestamp the logger stands at, which a new reading's
    /// timestamp is compared with.
    pub fn last_timestamp_value(&self) -> (r: &Option<TS>)
        ensures
            *r == self.last_timestamp(),
    {
        self.timestamp_factory.last_value()
    }

    /// The data the logger stands at, which a new reading's data is
    /// compared with.
    pub fn last_data_value(&self) -> (r: &Option<D>)
        ensures
            *r == self.last_data(),
    {
        self.factory.last_value()
    }

    /// Moves the full bytes of the bit writer to the output queue.
    fn drain_full_bytes(&mut self)
        requires
            capacity_fits::<TS, D, N>(),
            old(self).bit_writer.wf(),
            old(self).bit_writer.bit_len() < 8 * N,
        ensures
            final(self).wf(),
            final(self).stream() == old(self).stream(),
            final(self).factory == old(self).factory,
            final(self).timestamp_factory == old(self).timestamp_factory,
    {
        let ghost old_out = self.output@;
        let ghost old_pending = self.bit_writer.pending();
        let full = self.bit_writer.view_full_byte_slice();
        let ghost full_bytes = full@;
        push_bytes(&mut self.output, full);
        proof {
            lemma_bits_of_concat(old_out, full_bytes);
        }
        let ghost k = 8 * (self.bit_writer.bit_len() / 8);
        self.bit_writer.clear_full_byte_slice();
        assert(old_pending =~= old_pending.take(k) + old_pending.skip(k));
        assert(self.stream() =~= old(self).stream());
    }

    /// Writes the header and the two parts of an entry.
    fn write_entry<A: BitSliceWritable, B: BitArraySerializable>(
        &mut self,
        full_timestamp: bool,
        full_data: bool,
        a: A,
        b: &B,
    )
        requires
            old(self).bit_writer.wf(),
            old(self).bit_writer.bit_len() + 2 + a.spec_bits().len() + b.spec_serialized().len()
                < 8 * N,
        ensures
            final(self).bit_writer.wf(),
            final(self).bit_writer.bit_len() < 8 * N,
            final(self).stream() == old(self).stream() + entry_header(full_timestamp, full_data)
                + a.spec_bits() + b.spec_serialized(),
            final(self).factory == old(self).factory,
            final(self).timestamp_factory == old(self).timestamp_factory,
    {
        let ghost s0 = self.stream();
        let ghost ab = a.spec_bits();
        let header = [full_timestamp, full_data];
        assert(header@ =~= entry_header(full_timestamp, full_data));
        self.bit_writer.write(header);
        self.bit_writer.write(a);
        b.serialize(&mut self.bit_writer);
        assert(self.stream() =~= s0 + entry_header(full_timestamp, full_data) + ab
            + b.spec_serialized());
    }

    /// Writes a reading: the timestamp goes out as a delta when the
    /// timestamp factory makes one, else whole with the data whole; with a
    /// delta timestamp, the data goes out as a delta when the data factory
    /// makes one.
    #[verifier::rlimit(60)]
    fn write_reading(&mut self, timestamp: TS, data: D)
        requires
            old(self).wf(),
            encodable(old(self).last_timestamp(), timestamp),
            spec_encode(old(self).last_timestamp(), timestamp).1 is Right ==> encodable(
                old(self).last_data(),
                data,
            ),
        ensures
            final(self).wf(),
            ({
                let (tn, dn, rec) = spec_log_reading(
                    old(self).last_timestamp(),
                    old(self).last_data(),
                    timestamp,
                    data,
                );
                &&& final(self).stream() == old(self).stream() + rec
                &&& tracks(final(self).last_timestamp(), tn)
                &&& spec_encode(old(self).last_timestamp(), timestamp).1 is Left
                    ==> final(self).last_data() == old(self).last_data()
                &&& spec_encode(old(self).last_timestamp(), timestamp).1 is Right ==> tracks(
                    final(self).last_data(),
                    dn,
                )
            }),
    {
        proof {
            TS::lemma_round_trip(timestamp);
            D::lemma_round_trip(data);
        }
        let ts_item = self.timestamp_factory.push(timestamp);
        match ts_item {
            Either::Left(full_timestamp) => {
                self.write_entry(true, true, full_timestamp, &data);
            },
            Either::Right(delta_timestamp) => {
                proof {
                    <TS as Deltable>::DeltaType::lemma_round_trip(delta_timestamp);
                }
                let d_item = self.factory.push(data);
                match d_item {
                    Either::Left(full_data) => {
                        self.write_entry(false, true, delta_timestamp, &full_data);
                    },
                    Either::Right(delta) => {
                        proof {
                            <D as Deltable>::DeltaType::lemma_round_trip(delta);
                        }
                        self.write_entry(false, false, delta_timestamp, &delta);
                    },
                }
            },
        }
        self.drain_full_bytes();
    }

    /// Ends the log: writes the end-of-byte mark and moves every byte that
    /// holds a bit, the last one padded, to the output queue.
    pub fn flush(&mut self)
        requires
            old(self).wf(),
        ensures
            final(self).wf(),
            final(self).stream() == bits_of(final(self).output()),
            final(self).output().len() == old(self).output().len() + (old(self).stream().len()
                - 8 * old(self).output().len() + 2 + 7) / 8,
            final(self).stream().len() % 8 == 0,
            old(self).stream().len() + 2 <= final(self).stream().len() < old(self).stream().len()
                + 2 + 8,
            final(self).stream().take(old(self).stream().len() + 2int) == old(self).stream()
                + entry_header(true, false),
            final(self).stream().len() == old(self).stream().len() + 2 + pad_len(
                old(self).stream().len() as int,
            ),
            final(self).last_timestamp() == old(self).last_timestamp(),
            final(self).last_data() == old(self).last_data(),
    {
        let ghost s0 = self.stream();
        let ghost out0 = self.output@;
        let end = [true, false];
        assert(end@ =~= entry_header(true, false));
        self.bit_writer.write(end);
        let ghost p1 = self.bit_writer.pending();
        let all = self.bit_writer.view_all_data_slice();
        let ghost all_bytes = all@;
        push_bytes(&mut self.output, all);
        proof {
            lemma_bits_of_concat(out0, all_bytes);
        }
        self.bit_writer.clear();
        assert(bits_of(out0) + p1 =~= s0 + entry_header(true, false));
        assert(self.stream() =~= bits_of(out0) + bits_of(all_bytes));
        assert(self.stream().take(s0.len() + 2int) =~= s0 + entry_header(true, false));
    }

    /// Hands out the bytes waiting in the output queue and empties it.
    pub fn take_output(&mut self) -> (r: Vec<u8>)
        requires
            old(self).wf(),
        ensures
            final(self).wf(),
            r@ == old(self).output(),
            final(self).output() == Seq::<u8>::empty(),
            bits_of(r@) + final(self).stream() == old(self).stream(),
            final(self).last_timestamp() == old(self).last_timestamp(),
            final(self).last_data() == old(self).last_data(),
    {
        let mut r = Vec::new();
        core::mem::swap(&mut r, &mut self.output);
        assert(bits_of(self.output@) =~= Seq::<bool>::empty());
        assert(bits_of(r@) + self.stream() =~= old(self).stream());
        r
    }
}

impl<TS, D, const N: usize> DeltaLogger<TS, D, N> where
    TS: DeltaSub + BitRoundTrip + StepTimestamp,
    <TS as Deltable>::DeltaType: BitRoundTrip,
    D: DeltaSub + BitArrayRoundTrip,
    <D as Deltable>::DeltaType: BitArrayRoundTrip,
 {
    /// Whether `log` can take `timestamp` and `data` now: it drops them as
    /// too close to the last reading, or every delta the factories would
    /// hand out applies again.
    pub fn accepts(&self, timestamp: &TS, data: &D) -> (r: bool)
        ensures
            r == (too_close(self.last_timestamp(), *timestamp) || (encodable(
                self.last_timestamp(),
                *timestamp,
            ) && (spec_encode(self.last_timestamp(), *timestamp).1 is Right ==> encodable(
                self.last_data(),
                *data,
            )))),
    {
        if self.is_too_close(timestamp) {
            return true;
        }
        if !crate::delta_factory::can_encode(self.timestamp_factory.last_value(), timestamp) {
            return false;
        }
        let ts_is_delta = match self.timestamp_factory.last_value() {
            Some(l) => timestamp.sub(l).is_some(),
            None => false,
        };
        !ts_is_delta || crate::delta_factory::can_encode(self.factory.last_value(), data)
    }

    /// Whether a reading at `timestamp` is less than one step after the last
    /// reading logged.
    fn is_too_close(&self, timestamp: &TS) -> (r: bool)
        ensures
            r == too_close(self.last_timestamp(), *timestamp),
    {
        match self.timestamp_factory.last_value() {
            Some(last) => timestamp.steps() <= last.steps(),
            None => false,
        }
    }

    /// Logs a reading and returns `true`, unless it is less than one step
    /// after the last reading logged: then it is ignored, nothing changes,
    /// and the result is `false`.
    ///
    /// The timestamp goes out as a delta when the timestamp factory makes
    /// one, else whole with the data whole; with a delta timestamp, the data
    /// goes out as a delta when the data factory makes one.
    pub fn log(&mut self, timestamp: TS, data: D) -> (logged: bool)
        requires
            old(self).wf(),
            !too_close(old(self).last_timestamp(), timestamp) ==> encodable(
                old(self).last_timestamp(),
                timestamp,
            ),
            !too_close(old(self).last_timestamp(), timestamp) && spec_encode(
                old(self).last_timestamp(),
                timestamp,
            ).1 is Right ==> encodable(old(self).last_data(), data),
        ensures
            logged == !too_close(old(self).last_timestamp(), timestamp),
            !logged ==> *final(self) == *old(self),
            final(self).wf(),
            logged ==> ({
                let (tn, dn, rec) = spec_log_reading(
                    old(self).last_timestamp(),
                    old(self).last_data(),
                    timestamp,
                    data,
                );
                &&& final(self).stream() == old(self).stream() + rec
                &&& tracks(final(self).last_timestamp(), tn)
                &&& spec_encode(old(self).last_timestamp(), timestamp).1 is Left
                    ==> final(self).last_data() == old(self).last_data()
                &&& spec_encode(old(self).last_timestamp(), timestamp).1 is Right ==> tracks(
                    final(self).last_data(),
                    dn,
                )
            }),
    {
        if self.is_too_close(&timestamp) {
            return false;
        }
        self.write_reading(timestamp, data);
        true
    }

}

/// Bits that an entry takes, header included.
pub open spec fn entry_len<TS, D>(full_timestamp: bool, full_data: bool) -> nat where
    TS: DeltaSub + BitRoundTrip,
    <TS as Deltable>::DeltaType: BitRoundTrip,
    D: DeltaSub + BitArrayRoundTrip,
    <D as Deltable>::DeltaType: BitArrayRoundTrip,
 {
    2 + (if full_timestamp {
        TS::spec_len_bits()
    } else {
        <TS as Deltable>::DeltaType::spec_len_bits()
    }) + (if full_data {
        <D as BitArrayDeserializable>::spec_len_bits()
    } else {
        <<D as Deltable>::DeltaType as BitArrayDeserializable>::spec_len_bits()
    })
}

/// What a reader that stands at `ts_last` and `d_last` makes of the
/// payload `p` of an entry: the values it then stands at, and the reading
/// it hands out, or `None` when a delta has nothing to apply to.
pub open spec fn spec_read_payload<TS, D>(
    full_timestamp: bool,
    full_data: bool,
    ts_last: Option<TS>,
    d_last: Option<D>,
    p: Seq<bool>,
) -> (Option<TS>, Option<D>, Option<(TS, D)>) where
    TS: DeltaSub + BitRoundTrip,
    <TS as Deltable>::DeltaType: BitRoundTrip,
    D: DeltaSub + BitArrayRoundTrip,
    <D as Deltable>::DeltaType: BitArrayRoundTrip,
 {
    let tl = if full_timestamp {
        TS::spec_len_bits() as int
    } else {
        <TS as Deltable>::DeltaType::spec_len_bits() as int
    };
    let (tn, to) = if full_timestamp {
        let t = TS::spec_from_bits(p.take(tl));
        (Some(t), Some(t))
    } else {
        spec_decode(
            ts_last,
            Either::<TS, <TS as Deltable>::DeltaType>::Right(
                <TS as Deltable>::DeltaType::spec_from_bits(p.take(tl)),
            ),
        )
    };
    let (dn, dout) = if full_data {
        let d = D::spec_deserialize(p.skip(tl));
        (Some(d), Some(d))
    } else {
        spec_decode(
            d_last,
            Either::<D, <D as Deltable>::DeltaType>::Right(
                <D as Deltable>::DeltaType::spec_deserialize(p.skip(tl)),
            ),
        )
    };
    (
        tn,
        dn,
        match (to, dout) {
            (Some(t), Some(d)) => Some((t, d)),
            _ => None,
        },
    )
}

/// A logged reading reads back: a reader that stands where the logger
/// stood finds the whole entry and hands out the logged reading, as the
/// values the logger then stands at (the logged data itself when the
/// timestamp went out whole). It then stands where the logger stands, but
/// for its data after a whole timestamp: the reader takes the logged data,
/// the logger's data factory stays where it was.
pub proof fn lemma_reading_round_trip<TS, D>(
    ts_last: Option<TS>,
    d_last: Option<D>,
    ts: TS,
    d: D,
    rest: Seq<bool>,
) where
    TS: DeltaSub + BitRoundTrip,
    <TS as Deltable>::DeltaType: BitRoundTrip,
    D: DeltaSub + BitArrayRoundTrip,
    <D as Deltable>::DeltaType: BitArrayRoundTrip,

    requires
        encodable(ts_last, ts),
        spec_encode(ts_last, ts).1 is Right ==> encodable(d_last, d),
    ensures
        ({
            let (tn, dn, rec) = spec_log_reading(ts_last, d_last, ts, d);
            let s = rec + rest;
            let full_timestamp = spec_encode(ts_last, ts).1 is Left;
            let full_data = s[1];
            let d_out = if full_timestamp {
                d
            } else {
                dn.unwrap()
            };
            &&& s.len() >= 2
            &&& s[0] == full_timestamp
            &&& !(s[0] && !s[1])
            &&& entry_len::<TS, D>(s[0], s[1]) == rec.len()
            &&& spec_read_payload::<TS, D>(
                s[0],
                s[1],
                ts_last,
                d_last,
                s.subrange(2, rec.len() as int),
            ) == (tn, Some(d_out), Some((tn.unwrap(), d_out)))
            &&& tn is Some
            &&& !full_timestamp ==> dn is Some
        }),
{
    let (tn, dn, rec) = spec_log_reading(ts_last, d_last, ts, d);
    let s = rec + rest;
    let (tn0, ti) = spec_encode(ts_last, ts);
    crate::delta_factory::lemma_decoder_tracks_encoder(ts_last, ts);
    TS::lemma_round_trip(ts);
    D::lemma_round_trip(d);
    match ti {
        Either::Left(_) => {
            let p = s.subrange(2, rec.len() as int);
            assert(p =~= ts.spec_bits() + d.spec_serialized());
            assert(p.take(ts.spec_bits().len() as int) =~= ts.spec_bits());
            assert(p.skip(ts.spec_bits().len() as int) =~= d.spec_serialized());
        },
        Either::Right(dt) => {
            <TS as Deltable>::DeltaType::lemma_round_trip(dt);
            let (dn0, di) = spec_encode(d_last, d);
            crate::delta_factory::lemma_decoder_tracks_encoder(d_last, d);
            match di {
                Either::Left(_) => {
                    let p = s.subrange(2, rec.len() as int);
                    assert(p =~= dt.spec_bits() + d.spec_serialized());
                    assert(p.take(dt.spec_bits().len() as int) =~= dt.spec_bits());
                    assert(p.skip(dt.spec_bits().len() as int) =~= d.spec_serialized());
                },
                Either::Right(dd) => {
                    <D as Deltable>::DeltaType::lemma_round_trip(dd);
                    let p = s.subrange(2, rec.len() as int);
                    assert(p =~= dt.spec_bits() + dd.spec_serialized());
                    assert(p.take(dt.spec_bits().len() as int) =~= dt.spec_bits());
                    assert(p.skip(dt.spec_bits().len() as int) =~= dd.spec_serialized());
                },
            }
        },
    }
}

/// An entry of a log: a reading (timestamp and data), or a flush, which
/// ends the byte with the end-of-byte mark and `padding`, whatever bits fill
/// the byte after it.
pub enum LogEntry<TS, D> {
    Reading(TS, D),
    Flush(Seq<bool>),
}

/// The number of padding bits after an end-of-byte mark that begins at bit
/// `pos`: up to the next byte boundary.
pub open spec fn pad_len(pos: int) -> int {
    (8 - (pos + 2) % 8) % 8
}

/// Whether a logger that stands at `ts_last` and `d_last` can write
/// `entries` one after the other, from bit `pos` of its stream on.
pub open spec fn stream_encodable<TS, D>(
    ts_last: Option<TS>,
    d_last: Option<D>,
    pos: int,
    entries: Seq<LogEntry<TS, D>>,
) -> bool where
    TS: DeltaSub + BitRoundTrip,
    <TS as Deltable>::DeltaType: BitRoundTrip,
    D: DeltaSub + BitArrayRoundTrip,
    <D as Deltable>::DeltaType: BitArrayRoundTrip,

    decreases entries.len(),
{
    if entries.len() == 0 {
        true
    } else {
        match entries[0] {
            LogEntry::Reading(t, d) => {
                let (tn, dn, rec) = spec_log_reading(ts_last, d_last, t, d);
                &&& encodable(ts_last, t)
                &&& spec_encode(ts_last, t).1 is Right ==> encodable(d_last, d)
                &&& stream_encodable(tn, dn, pos + rec.len(), entries.skip(1))
            },
            LogEntry::Flush(padding) => {
                &&& padding.len() == pad_len(pos)
                &&& stream_encodable(ts_last, d_last, pos + 2 + padding.len(), entries.skip(1))
            },
        }
    }
}

/// Whether no reading of `entries` goes out with a whole timestamp while
/// the logger's data factory stands at other data than the reading's: after
/// such a reading the logger's data factory and the reader's part ways.
pub open spec fn no_stale_data<TS, D>(
    ts_last: Option<TS>,
    d_last: Option<D>,
    entries: Seq<LogEntry<TS, D>>,
) -> bool where
    TS: DeltaSub + BitRoundTrip,
    <TS as Deltable>::DeltaType: BitRoundTrip,
    D: DeltaSub + BitArrayRoundTrip,
    <D as Deltable>::DeltaType: BitArrayRoundTrip,

    decreases entries.len(),
{
    if entries.len() == 0 {
        true
    } else {
        match entries[0] {
            LogEntry::Reading(t, d) => {
                let (tn, dn, _) = spec_log_reading(ts_last, d_last, t, d);
                &&& spec_encode(ts_last, t).1 is Left ==> (d_last is None || d_last == Some(d))
                &&& no_stale_data(tn, dn, entries.skip(1))
            },
            LogEntry::Flush(_) => no_stale_data(ts_last, d_last, entries.skip(1)),
        }
    }
}

/// The bits that a logger standing at `ts_last` and `d_last` writes for
/// `entries`, and what each reading should read back as: the timestamp the
/// logger then stands at, with the logged data when the timestamp went out
/// whole, else the data the logger then stands at. A flush reads back as
/// nothing.
pub open spec fn spec_stream<TS, D>(
    ts_last: Option<TS>,
    d_last: Option<D>,
    entries: Seq<LogEntry<TS, D>>,
) -> (Seq<bool>, Seq<(TS, D)>) where
    TS: DeltaSub + BitRoundTrip,
    <TS as Deltable>::DeltaType: BitRoundTrip,
    D: DeltaSub + BitArrayRoundTrip,
    <D as Deltable>::DeltaType: BitArrayRoundTrip,

    decreases entries.len(),
{
    if entries.len() == 0 {
        (Seq::empty(), Seq::empty())
    } else {
        match entries[0] {
            LogEntry::Reading(t, d) => {
                let (tn, dn, rec) = spec_log_reading(ts_last, d_last, t, d);
                let d_out = if spec_encode(ts_last, t).1 is Left {
                    d
                } else {
                    dn.unwrap()
                };
                let (bits, outs) = spec_stream(tn, dn, entries.skip(1));
                (rec + bits, seq![(tn.unwrap(), d_out)] + outs)
            },
            LogEntry::Flush(padding) => {
                let (bits, outs) = spec_stream(ts_last, d_last, entries.skip(1));
                (entry_header(true, false) + padding + bits, outs)
            },
        }
    }
}

/// What a reader that stands at `ts_last` and `d_last`, at bit `pos` of the
/// log, hands out when it reads up to `n` entries from `bits`, entry by
/// entry as `inner_read` does: it stops at an entry that is cut short; the
/// end-of-byte mark is skipped with the rest of its byte.
pub open spec fn spec_read_entries<TS, D>(
    ts_last: Option<TS>,
    d_last: Option<D>,
    bits: Seq<bool>,
    pos: int,
    n: nat,
) -> Seq<(TS, D)> where
    TS: DeltaSub + BitRoundTrip,
    <TS as Deltable>::DeltaType: BitRoundTrip,
    D: DeltaSub + BitArrayRoundTrip,
    <D as Deltable>::DeltaType: BitArrayRoundTrip,

    decreases n,
{
    if n == 0 || bits.len() < 2 {
        Seq::empty()
    } else if bits[0] && !bits[1] {
        let k = 2 + pad_len(pos);
        if bits.len() < k {
            Seq::empty()
        } else {
            spec_read_entries::<TS, D>(ts_last, d_last, bits.skip(k), pos + k, (n - 1) as nat)
        }
    } else if bits.len() < entry_len::<TS, D>(bits[0], bits[1]) {
        Seq::empty()
    } else {
        let len = entry_len::<TS, D>(bits[0], bits[1]);
        let (tn, dn, out) = spec_read_payload::<TS, D>(
            bits[0],
            bits[1],
            ts_last,
            d_last,
            bits.subrange(2, len as int),
        );
        let rest = spec_read_entries::<TS, D>(
            tn,
            dn,
            bits.skip(len as int),
            pos + len,
            (n - 1) as nat,
        );
        match out {
            Some(x) => seq![x] + rest,
            None => rest,
        }
    }
}

/// A log reads back: a reader that starts where the logger started, at the
/// same bit of a byte, or with data of its own while the logger has none,
/// reads from the bits of any run of entries followed by anything one
/// reading per logged reading, each what `spec_stream` says, skipping each
/// flush's end-of-byte mark and padding, as long as no reading goes out
/// with a whole timestamp while the logger's data factory stands at other
/// data.
pub proof fn lemma_stream_round_trip<TS, D>(
    ts_last: Option<TS>,
    d_last: Option<D>,
    reader_d_last: Option<D>,
    pos: int,
    entries: Seq<LogEntry<TS, D>>,
    rest: Seq<bool>,
) where
    TS: DeltaSub + BitRoundTrip,
    <TS as Deltable>::DeltaType: BitRoundTrip,
    D: DeltaSub + BitArrayRoundTrip,
    <D as Deltable>::DeltaType: BitArrayRoundTrip,

    requires
        stream_encodable(ts_last, d_last, pos, entries),
        no_stale_data(ts_last, d_last, entries),
        d_last is None || reader_d_last == d_last,
    ensures
        ({
            let (bits, outs) = spec_stream(ts_last, d_last, entries);
            spec_read_entries::<TS, D>(ts_last, reader_d_last, bits + rest, pos, entries.len())
                == outs
        }),
    decreases entries.len(),
{
    if entries.len() > 0 {
        let tail = entries.skip(1);
        match entries[0] {
            LogEntry::Reading(t, d) => {
                let (tn, dn, rec) = spec_log_reading(ts_last, d_last, t, d);
                let (bits1, outs1) = spec_stream(tn, dn, tail);
                lemma_reading_round_trip::<TS, D>(ts_last, d_last, t, d, bits1 + rest);
                let s = rec + bits1 + rest;
                assert(rec + (bits1 + rest) =~= s);
                assert(s.skip(rec.len() as int) =~= bits1 + rest);
                let p = s.subrange(2, rec.len() as int);
                let full_timestamp = spec_encode(ts_last, t).1 is Left;
                if !full_timestamp && spec_encode(d_last, d).1 is Right {
                    assert(d_last is Some);
                    assert(reader_d_last == d_last);
                }
                assert(spec_read_payload::<TS, D>(s[0], s[1], ts_last, reader_d_last, p)
                    == spec_read_payload::<TS, D>(s[0], s[1], ts_last, d_last, p));
                if full_timestamp {
                    lemma_stream_round_trip::<TS, D>(tn, dn, Some(d), pos + rec.len(), tail, rest);
                } else {
                    lemma_stream_round_trip::<TS, D>(tn, dn, dn, pos + rec.len(), tail, rest);
                }
            },
            LogEntry::Flush(padding) => {
                let (bits1, outs1) = spec_stream(ts_last, d_last, tail);
                lemma_stream_round_trip::<TS, D>(
                    ts_last,
                    d_last,
                    reader_d_last,
                    pos + 2 + padding.len(),
                    tail,
                    rest,
                );
                let e = entry_header(true, false);
                let s = e + padding + bits1 + rest;
                assert(e + (padding + bits1 + rest) =~= s);
                assert(s[0] && !s[1]);
                assert(s.skip(2 + padding.len() as int) =~= bits1 + rest);
            },
        }
    }
}

/// What one step of reading a log comes to.
pub enum ReadStep<TS, D> {
    /// The next entry needs at least this many bits; bring more bytes.
    NeedMoreBits(usize),
    /// An entry was consumed that gives nothing to hand out.
    TryAgain,
    /// A reading: its timestamp and data.
    Data((TS, D)),
}

/// Reads back what a `DeltaLogger` wrote.
pub struct DeltaLoggerReader<TS, D, const N: usize> where
    TS: DeltaSub + BitRoundTrip,
    <TS as Deltable>::DeltaType: BitRoundTrip,
    D: DeltaSub + BitArrayRoundTrip,
    <D as Deltable>::DeltaType: BitArrayRoundTrip,
 {
    factory: UnDeltaFactory<D>,
    timestamp_factory: UnDeltaFactory<TS>,
    bit_reader: BitSliceReader<N>,
}

impl<TS, D, const N: usize> DeltaLoggerReader<TS, D, N> where
    TS: DeltaSub + BitRoundTrip,
    <TS as Deltable>::DeltaType: BitRoundTrip,
    D: DeltaSub + BitArrayRoundTrip,
    <D as Deltable>::DeltaType: BitArrayRoundTrip,
 {
    /// The bits brought in and not read yet.
    pub closed spec fn available(&self) -> Seq<bool> {
        self.bit_reader.available()
    }

    /// Where in its buffer the next bit to read stands.
    pub closed spec fn bit_start(&self) -> int {
        self.bit_reader.start_pos()
    }

    pub closed spec fn last_timestamp(&self) -> Option<TS> {
        self.timestamp_factory.last()
    }

    pub closed spec fn last_data(&self) -> Option<D> {
        self.factory.last()
    }

    pub closed spec fn wf(&self) -> bool {
        self.bit_reader.wf()
    }

    /// The bits not read yet end on a byte boundary of the buffer, which
    /// holds them.
    pub open spec fn aligned(&self) -> bool {
        &&& 0 <= self.bit_start()
        &&& (self.bit_start() + self.available().len()) % 8 == 0
        &&& self.bit_start() + self.available().len() <= 8 * N
    }

    /// A well-formed reader is aligned.
    pub proof fn lemma_wf_aligned(&self)
        requires
            self.wf(),
        ensures
            self.aligned(),
    {
    }

    pub fn new() -> (r: Self)
        requires
            N <= max_view_bytes(),
        ensures
            r.wf(),
            r.bit_start() == 0,
            r.available() == Seq::<bool>::empty(),
            r.last_timestamp() is None,
            r.last_data() is None,
    {
        Self {
            factory: UnDeltaFactory::new(),
            timestamp_factory: UnDeltaFactory::new(),
            bit_reader: BitSliceReader::default(),
        }
    }

    /// Number of bits brought in and not read yet.
    pub fn len_bits(&self) -> (r: usize)
        requires
            self.wf(),
        ensures
            r == self.available().len(),
    {
        self.bit_reader.len_bits()
    }

    /// Makes room for new bytes and returns how many can come in.
    pub fn prepare_replenish(&mut self) -> (r: usize)
        requires
            old(self).wf(),
        ensures
            final(self).wf(),
            final(self).available() == old(self).available(),
            final(self).bit_start() == (8 - old(self).available().len() % 8) % 8,
            r == (8 * N - old(self).available().len()) / 8,
            final(self).last_timestamp() == old(self).last_timestamp(),
            final(self).last_data() == old(self).last_data(),
    {
        self.bit_reader.prepare_replenish()
    }

    /// Takes in bytes that were read after `prepare_replenish`.
    pub fn commit_replenish(&mut self, data: &[u8])
        requires
            old(self).wf(),
            old(self).bit_start() < 8,
            data@.len() <= (8 * N - old(self).available().len()) / 8,
        ensures
            final(self).wf(),
            final(self).available() == old(self).available() + bits_of(data@),
            final(self).bit_start() == old(self).bit_start(),
            final(self).last_timestamp() == old(self).last_timestamp(),
            final(self).last_data() == old(self).last_data(),
    {
        proof {
            let len = self.bit_reader.available().len();
            let e = self.bit_reader.end();
            let st = self.bit_reader.start_pos();
            assert(e == st + len);
            assert(e % 8 == 0);
            assert(e / 8 * 8 == e);
            assert((8 * N - len) / 8 == N - e / 8) by {
                assert(8 * N - len == 8 * (N - e / 8) + st);
            }
        }
        self.bit_reader.commit_replenish(data)
    }

    /// What reading a whole entry with header bits `full_timestamp` and
    /// `full_data` from `self` does: it leaves `next` and gives `r`, as
    /// `spec_read_payload` says.
    pub open spec fn entry_read(
        &self,
        next: &Self,
        full_timestamp: bool,
        full_data: bool,
        r: ReadStep<TS, D>,
    ) -> bool {
        let a = self.available();
        let len = entry_len::<TS, D>(full_timestamp, full_data);
        let (tn, dn, out) = spec_read_payload::<TS, D>(
            full_timestamp,
            full_data,
            self.last_timestamp(),
            self.last_data(),
            a.subrange(2, len as int),
        );
        &&& next.available() == a.skip(len as int)
        &&& next.bit_start() == self.bit_start() + len
        &&& tracks(next.last_timestamp(), tn)
        &&& tracks(next.last_data(), dn)
        &&& match out {
            Some(x) => r == ReadStep::<TS, D>::Data(x),
            None => r is TryAgain,
        }
    }

    /// Reads the payload of an entry whose header bits were read already.
    #[verifier::rlimit(40)]
    fn read_payload(&mut self, full_timestamp: bool, full_data: bool) -> (r: ReadStep<TS, D>)
        requires
            old(self).wf(),
            old(self).available().len() >= entry_len::<TS, D>(full_timestamp, full_data) - 2,
        ensures
            final(self).wf(),
            ({
                let n = entry_len::<TS, D>(full_timestamp, full_data) - 2;
                let (tn, dn, out) = spec_read_payload::<TS, D>(
                    full_timestamp,
                    full_data,
                    old(self).last_timestamp(),
                    old(self).last_data(),
                    old(self).available().take(n),
                );
                &&& final(self).available() == old(self).available().skip(n)
                &&& final(self).bit_start() == old(self).bit_start() + n
                &&& tracks(final(self).last_timestamp(), tn)
                &&& tracks(final(self).last_data(), dn)
                &&& match out {
                    Some(x) => r == ReadStep::<TS, D>::Data(x),
                    None => r is TryAgain,
                }
            }),
    {
        let ghost a = self.bit_reader.available();
        let ghost n = entry_len::<TS, D>(full_timestamp, full_data) - 2;
        let ghost p = a.take(n);
        let ghost tl = if full_timestamp {
            TS::spec_len_bits() as int
        } else {
            <TS as Deltable>::DeltaType::spec_len_bits() as int
        };
        let t_out = if full_timestamp {
            let t = self.bit_reader.read::<TS>().unwrap();
            Some(self.timestamp_factory.push(t))
        } else {
            let dt = self.bit_reader.read::<<TS as Deltable>::DeltaType>().unwrap();
            self.timestamp_factory.push_delta(dt)
        };
        assert(p.take(tl) =~= a.take(tl));
        let ghost a1 = self.bit_reader.available();
        assert(a1 =~= a.skip(tl));
        let d_out = if full_data {
            let d = D::deserialize(&mut self.bit_reader);
            Some(self.factory.push(d))
        } else {
            let dd = <D as Deltable>::DeltaType::deserialize(&mut self.bit_reader);
            self.factory.push_delta(dd)
        };
        assert(p.skip(tl) =~= a1.take(n - tl));
        assert(self.bit_reader.available() =~= a.skip(n));
        match (t_out, d_out) {
            (Some(t), Some(d)) => ReadStep::Data((t, d)),
            _ => ReadStep::TryAgain,
        }
    }

    /// Reads the next entry if all of its bits are held.
    ///
    /// When fewer than 2 bits are held, or fewer than the entry takes,
    /// nothing is read and the number of bits needed is given. The
    /// end-of-byte mark is read with the rest of its byte and gives nothing;
    /// another entry is read whole, as `entry_read` says.
    #[verifier::rlimit(40)]
    pub fn inner_read(&mut self) -> (r: ReadStep<TS, D>)
        requires
            old(self).wf(),
        ensures
            final(self).wf(),
            ({
                let a = old(self).available();
                if a.len() < 2 {
                    &&& r == ReadStep::<TS, D>::NeedMoreBits(2)
                    &&& *final(self) == *old(self)
                } else if a[0] && !a[1] {
                    let skip_to = (old(self).bit_start() + 2 + 7) / 8 * 8;
                    &&& r is TryAgain
                    &&& final(self).bit_start() == skip_to
                    &&& final(self).available() == a.skip(skip_to - old(self).bit_start())
                    &&& final(self).last_timestamp() == old(self).last_timestamp()
                    &&& final(self).last_data() == old(self).last_data()
                } else if a.len() < entry_len::<TS, D>(a[0], a[1]) {
                    &&& r == ReadStep::<TS, D>::NeedMoreBits(
                        clamp_usize(entry_len::<TS, D>(a[0], a[1])),
                    )
                    &&& *final(self) == *old(self)
                } else {
                    old(self).entry_read(&*final(self), a[0], a[1], r)
                }
            }),
    {
        let ghost a = self.bit_reader.available();
        let avail = self.bit_reader.len_bits();
        if avail < 2 {
            return ReadStep::NeedMoreBits(2);
        }
        let full_timestamp = self.bit_reader.peek::<bool>(0).unwrap();
        let full_data = self.bit_reader.peek::<bool>(1).unwrap();
        assert(a.subrange(0, 1)[0] == a[0]);
        assert(a.subrange(1, 2)[0] == a[1]);
        if full_timestamp && !full_data {
            let _ = self.bit_reader.read::<bool>();
            let _ = self.bit_reader.read::<bool>();
            assert(self.bit_reader.available() =~= a.skip(2));
            let ghost s2 = self.bit_reader.start_pos();
            self.bit_reader.skip_byte();
            assert(a.skip(2).skip(((s2 + 7) / 8 * 8 - s2) as int) =~= a.skip(
                (s2 + 7) / 8 * 8 - old(self).bit_start(),
            ));
            return ReadStep::TryAgain;
        }
        let ts_len = if full_timestamp {
            <TS as FromBitSlice>::len_bits()
        } else {
            <<TS as Deltable>::DeltaType as FromBitSlice>::len_bits()
        };
        let d_len = if full_data {
            <D as BitArrayDeserializable>::len_bits()
        } else {
            <<D as Deltable>::DeltaType as BitArrayDeserializable>::len_bits()
        };
        let need = sum_clamped(2, ts_len, d_len);
        if avail < need {
            return ReadStep::NeedMoreBits(need);
        }
        let _ = self.bit_reader.read::<bool>();
        let _ = self.bit_reader.read::<bool>();
        assert(self.bit_reader.available() =~= a.skip(2));
        let ghost len = entry_len::<TS, D>(full_timestamp, full_data) as int;
        let r = self.read_payload(full_timestamp, full_data);
        assert(a.skip(2).take(len - 2) =~= a.subrange(2, len));
        assert(a.skip(2).skip(len - 2) =~= a.skip(len));
        r
    }
}

} // verus!
