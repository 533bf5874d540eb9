use vstd::prelude::*;

use crate::bits::{bits_of, max_view_bytes, splice_bits};
use crate::delta_logger::delta_factory::{
    encodable, holds_clone_of, spec_decode, spec_encode, DeltaFactory, Deltable, UnDeltaFactory,
};
use crate::delta_logger2::bitslice_io::{
    BitArrayDeserializable, BitArrayRoundTrip, BitArraySerializable, BitSliceReader,
    BitSliceWriter,
};
use crate::delta_logger2::bitvec_serialize_traits::{BitRoundTrip, BitSliceWritable, FromBitSlice};
use crate::delta_logger::timestamp::{StepTimestamp, TimestampTicks};
use crate::either::Either;

verus! {

/// What the next entry of a log is, written in front of it with a prefix
/// code:
/// `10` delta timestamp, delta data; `01` delta timestamp, full data;
/// `00` unix timestamp log; `111` end of byte; `110` full timestamp, full data.
#[derive(Debug, PartialEq, Eq, Structural)]
pub enum Header {
    DeltaTimestampDeltaData,
    DeltaTimestampFullData,
    UnixTimeStampLog,
    EndOfByte,
    FullTimestampFullData,
}

/// The code of a header.
pub open spec fn header_bits(h: Header) -> Seq<bool> {
    match h {
        Header::DeltaTimestampDeltaData => seq![true, false],
        Header::DeltaTimestampFullData => seq![false, true],
        Header::UnixTimeStampLog => seq![false, false],
        Header::EndOfByte => seq![true, true, true],
        Header::FullTimestampFullData => seq![true, true, false],
    }
}

/// The header at the front of `s`, if `s` holds a whole code.
pub open spec fn spec_parse_header(s: Seq<bool>) -> Option<Header> {
    if s.len() < 2 {
        None
    } else if s[0] && !s[1] {
        Some(Header::DeltaTimestampDeltaData)
    } else if !s[0] && s[1] {
        Some(Header::DeltaTimestampFullData)
    } else if !s[0] && !s[1] {
        Some(Header::UnixTimeStampLog)
    } else if s.len() < 3 {
        None
    } else if s[2] {
        Some(Header::EndOfByte)
    } else {
        Some(Header::FullTimestampFullData)
    }
}

/// The codes are a prefix code: the header at the front of a code followed by
/// anything is that code's header.
pub proof fn lemma_parse_header(h: Header, rest: Seq<bool>)
    ensures
        spec_parse_header(header_bits(h) + rest) == Some(h),
{
    let s = header_bits(h) + rest;
    assert(s[0] == header_bits(h)[0]);
    assert(s[1] == header_bits(h)[1]);
    if header_bits(h).len() == 3 {
        assert(s[2] == header_bits(h)[2]);
    }
}

impl Header {
    pub fn serialize<const N: usize>(&self, writer: &mut BitSliceWriter<N>)
        requires
            old(writer).wf(),
            old(writer).bit_len() + header_bits(*self).len() <= 8 * N,
        ensures
            final(writer).wf(),
            final(writer).pending() == old(writer).pending() + header_bits(*self),
            final(writer).bit_len() == old(writer).bit_len() + header_bits(*self).len(),
            bits_of(final(writer).bytes()) == splice_bits(
                bits_of(old(writer).bytes()),
                old(writer).bit_len(),
                header_bits(*self),
            ),
    {
        match self {
            Header::DeltaTimestampDeltaData => {
                let b = [true, false];
                assert(b@ =~= header_bits(*self));
                writer.write(b);
            },
            Header::DeltaTimestampFullData => {
                let b = [false, true];
                assert(b@ =~= header_bits(*self));
                writer.write(b);
            },
            Header::UnixTimeStampLog => {
                let b = [false, false];
                assert(b@ =~= header_bits(*self));
                writer.write(b);
            },
            Header::EndOfByte => {
                let b = [true, true, true];
                assert(b@ =~= header_bits(*self));
                writer.write(b);
            },
            Header::FullTimestampFullData => {
                let b = [true, true, false];
                assert(b@ =~= header_bits(*self));
                writer.write(b);
            },
        }
    }
}

/// A call made on a logger, as far as the order of its entries goes: a
/// reading that is logged (one that is dropped changes nothing), a unix
/// timestamp log, or a flush.
pub enum LoggerCall<U> {
    Reading,
    UnixTime(U),
    Flush,
}

/// An entry that a call writes: a reading, a unix timestamp log, or an
/// end-of-byte code with its padding.
pub enum WrittenEntry<U> {
    Reading,
    Unix(U),
    EndOfByte,
}

/// What `call` does to a logger whose last entry was a unix timestamp log
/// when `unix_last`, and which holds back `held`: the entries it writes, in
/// order, whether its last entry is then a unix timestamp log, and what it
/// then holds back.
///
/// A unix timestamp log right after another one is held back instead of
/// written, replacing what was held; a logged reading first writes what is
/// held, unless the last entry is a unix timestamp log, in which case it
/// stays held for the next reading; a flush writes neither.
pub open spec fn call_effect<U>(unix_last: bool, held: Option<U>, call: LoggerCall<U>) -> (
    Seq<WrittenEntry<U>>,
    bool,
    Option<U>,
) {
    match call {
        LoggerCall::Reading => match held {
            Some(u) => if unix_last {
                (seq![WrittenEntry::Reading], false, Some(u))
            } else {
                (seq![WrittenEntry::Unix(u), WrittenEntry::Reading], false, None)
            },
            None => (seq![WrittenEntry::Reading], false, None),
        },
        LoggerCall::UnixTime(u) => if unix_last {
            (Seq::empty(), true, Some(u))
        } else {
            (seq![WrittenEntry::Unix(u)], true, held)
        },
        LoggerCall::Flush => (seq![WrittenEntry::EndOfByte], unix_last, held),
    }
}

/// What `calls`, made one after the other, do: as `call_effect` says of
/// each.
pub open spec fn calls_effect<U>(unix_last: bool, held: Option<U>, calls: Seq<LoggerCall<U>>) -> (
    Seq<WrittenEntry<U>>,
    bool,
    Option<U>,
)
    decreases calls.len(),
{
    if calls.len() == 0 {
        (Seq::empty(), unix_last, held)
    } else {
        let (w, f, h) = call_effect(unix_last, held, calls[0]);
        let (w2, f2, h2) = calls_effect(f, h, calls.skip(1));
        (w + w2, f2, h2)
    }
}

/// Whether no two unix timestamp logs of `entries` stand without a reading
/// between them, `since_unix` telling whether a unix timestamp log came
/// before `entries` with no reading after it.
pub open spec fn unix_separated<U>(since_unix: bool, entries: Seq<WrittenEntry<U>>) -> bool
    decreases entries.len(),
{
    if entries.len() == 0 {
        true
    } else {
        match entries[0] {
            WrittenEntry::Reading => unix_separated(false, entries.skip(1)),
            WrittenEntry::Unix(_) => !since_unix && unix_separated(true, entries.skip(1)),
            WrittenEntry::EndOfByte => unix_separated(since_unix, entries.skip(1)),
        }
    }
}

/// Whether a unix timestamp log stands last among `entries` with no reading
/// after it, `since_unix` telling whether one did before `entries`.
pub open spec fn unix_last_after<U>(since_unix: bool, entries: Seq<WrittenEntry<U>>) -> bool
    decreases entries.len(),
{
    if entries.len() == 0 {
        since_unix
    } else {
        match entries[0] {
            WrittenEntry::Reading => unix_last_after(false, entries.skip(1)),
            WrittenEntry::Unix(_) => unix_last_after(true, entries.skip(1)),
            WrittenEntry::EndOfByte => unix_last_after(since_unix, entries.skip(1)),
        }
    }
}

proof fn lemma_separated_concat<U>(since_unix: bool, a: Seq<WrittenEntry<U>>, b: Seq<WrittenEntry<U>>)
    ensures
        unix_separated(since_unix, a + b) == (unix_separated(since_unix, a) && unix_separated(
            unix_last_after(since_unix, a),
            b,
        )),
        unix_last_after(since_unix, a + b) == unix_last_after(unix_last_after(since_unix, a), b),
    decreases a.len(),
{
    if a.len() > 0 {
        assert((a + b).skip(1) =~= a.skip(1) + b);
        assert((a + b)[0] == a[0]);
        match a[0] {
            WrittenEntry::Reading => lemma_separated_concat(false, a.skip(1), b),
            WrittenEntry::Unix(_) => lemma_separated_concat(true, a.skip(1), b),
            WrittenEntry::EndOfByte => lemma_separated_concat(since_unix, a.skip(1), b),
        }
    } else {
        assert(a + b =~= b);
    }
}

/// Over any run of calls on a logger, no two unix timestamp logs are
/// written without a reading between them, and the logger's flag that its
/// last entry was a unix timestamp log stays true to what was written: a
/// held log goes out only with a later reading, never with a flush.
pub proof fn lemma_unix_logs_separated<U>(unix_last: bool, held: Option<U>, calls: Seq<LoggerCall<U>>)
    ensures
        ({
            let (w, f, h) = calls_effect(unix_last, held, calls);
            &&& unix_separated(unix_last, w)
            &&& f == unix_last_after(unix_last, w)
        }),
    decreases calls.len(),
{
    if calls.len() > 0 {
        let (w, f, h) = call_effect(unix_last, held, calls[0]);
        let (w2, f2, h2) = calls_effect(f, h, calls.skip(1));
        lemma_unix_logs_separated(f, h, calls.skip(1));
        lemma_separated_concat(unix_last, w, w2);
        reveal_with_fuel(unix_separated, 3);
        reveal_with_fuel(unix_last_after, 3);
        if w.len() >= 1 {
            assert(w.skip(1).len() == 0 || w.skip(1)[0] == w[1]);
        }
        if w.len() == 2 {
            assert(w.skip(1).skip(1) =~= Seq::<WrittenEntry<U>>::empty());
        }
        if w.len() == 1 {
            assert(w.skip(1) =~= Seq::<WrittenEntry<U>>::empty());
        }
    }
}

/// The bits of `entries`: `rec` for the reading, the unix timestamp logs as
/// the logger writes them, and the end-of-byte code followed by `pad`.
pub open spec fn written_bits<U: BitArrayRoundTrip>(
    entries: Seq<WrittenEntry<U>>,
    rec: Seq<bool>,
    pad: Seq<bool>,
) -> Seq<bool>
    decreases entries.len(),
{
    if entries.len() == 0 {
        Seq::empty()
    } else {
        let first = match entries[0] {
            WrittenEntry::Reading => rec,
            WrittenEntry::Unix(u) => unix_time_bits(u),
            WrittenEntry::EndOfByte => header_bits(Header::EndOfByte) + pad,
        };
        first + written_bits(entries.skip(1), rec, pad)
    }
}

} // verus!

verus! {

/// When the unix time was known, against boot time: both are the bit
/// patterns of the `f64` milliseconds they stand for, which is how they go
/// into the log.
#[derive(Debug, Clone, Copy, PartialEq, Eq, Structural)]
pub struct UnixTimestampLog {
    pub boot_timestamp: u64,
    pub unix_timestamp: u64,
}

impl BitArraySerializable for UnixTimestampLog {
    open spec fn spec_serialized(&self) -> Seq<bool> {
        self.boot_timestamp.spec_bits() + self.unix_timestamp.spec_bits()
    }

    fn serialize<const N: usize>(&self, writer: &mut BitSliceWriter<N>) {
        writer.write(self.boot_timestamp);
        writer.write(self.unix_timestamp);
    }
}

impl BitArrayDeserializable for UnixTimestampLog {
    open spec fn spec_len_bits() -> nat {
        128
    }

    open spec fn spec_deserialize(bits: Seq<bool>) -> Self {
        UnixTimestampLog {
            boot_timestamp: u64::spec_from_bits(bits.take(64)),
            unix_timestamp: u64::spec_from_bits(bits.skip(64).take(64)),
        }
    }

    fn deserialize<const N: usize>(reader: &mut BitSliceReader<N>) -> (r: Self) {
        let ghost a = reader.available();
        let boot_timestamp = reader.read::<u64>().unwrap();
        let unix_timestamp = reader.read::<u64>().unwrap();
        assert(a.skip(64).skip(64) =~= a.skip(128));
        assert(a.take(128).take(64) =~= a.take(64));
        assert(a.take(128).skip(64).take(64) =~= a.skip(64).take(64));
        UnixTimestampLog { boot_timestamp, unix_timestamp }
    }

    fn len_bits() -> (r: usize) {
        128
    }
}

impl BitArrayRoundTrip for UnixTimestampLog {
    proof fn lemma_round_trip(v: Self) {
        <u64 as BitRoundTrip>::lemma_round_trip(v.boot_timestamp);
        <u64 as BitRoundTrip>::lemma_round_trip(v.unix_timestamp);
        let s = v.spec_serialized();
        assert(s.take(64) =~= v.boot_timestamp.spec_bits());
        assert(s.skip(64).take(64) =~= v.unix_timestamp.spec_bits());
    }
}

/// `bits_of` distributes over concatenation.
pub proof fn lemma_bits_of_concat(a: Seq<u8>, b: Seq<u8>)
    ensures
        bits_of(a + b) == bits_of(a) + bits_of(b),
{
    assert forall|i: int| 0 <= i < 8 * (a.len() + b.len()) implies #[trigger] bits_of(a + b)[i]
        == (bits_of(a) + bits_of(b))[i] by {
        if i >= 8 * a.len() {
            let m = i - 8 * a.len();
            assert(i / 8 == a.len() + m / 8);
            assert(i % 8 == m % 8);
        }
    }
    assert(bits_of(a + b) =~= bits_of(a) + bits_of(b));
}

/// Appends `bytes` to `out`.
pub(crate) fn push_bytes(out: &mut Vec<u8>, bytes: &[u8])
    ensures
        final(out)@ == old(out)@ + bytes@,
{
    let mut i: usize = 0;
    while i < bytes.len()
        invariant
            i <= bytes@.len(),
            out@ == old(out)@ + bytes@.take(i as int),
        decreases bytes@.len() - i,
    {
        out.push(bytes[i]);
        i = i + 1;
        assert(out@ =~= old(out)@ + bytes@.take(i as int));
    }
    assert(bytes@.take(bytes@.len() as int) =~= bytes@);
}

/// The bits that the logger writes for a reading: the timestamp goes out
/// whole or as a delta, and so does the data, but data goes out whole
/// whenever the timestamp does.
pub open spec fn reading_bits<TS, D>(
    ts_item: Either<TS, <TS as Deltable>::DeltaType>,
    data_item: Either<D, <D as Deltable>::DeltaType>,
) -> Seq<bool> where
    TS: Deltable + BitRoundTrip,
    <TS as Deltable>::DeltaType: BitRoundTrip,
    D: Deltable + BitArrayRoundTrip,
    <D as Deltable>::DeltaType: BitArrayRoundTrip,
 {
    match ts_item {
        Either::Left(t) => match data_item {
            Either::Left(d) => header_bits(Header::FullTimestampFullData) + t.spec_bits()
                + d.spec_serialized(),
            Either::Right(dd) => header_bits(Header::FullTimestampFullData) + t.spec_bits()
                + dd.spec_serialized(),
        },
        Either::Right(dt) => match data_item {
            Either::Left(d) => header_bits(Header::DeltaTimestampFullData) + dt.spec_bits()
                + d.spec_serialized(),
            Either::Right(dd) => header_bits(Header::DeltaTimestampDeltaData) + dt.spec_bits()
                + dd.spec_serialized(),
        },
    }
}

/// The bits that the logger writes for a unix timestamp log.
pub open spec fn unix_time_bits<U: BitArrayRoundTrip>(u: U) -> Seq<bool> {
    header_bits(Header::UnixTimeStampLog) + u.spec_serialized()
}

/// `actual` is what `model` says, up to a clone.
pub open spec fn tracks<T: Clone>(actual: Option<T>, model: Option<T>) -> bool {
    match model {
        Some(m) => holds_clone_of(actual, m),
        None => actual is None,
    }
}

/// What logging a reading does to a logger that last stood at `ts_last` and
/// `d_last`: the values it then stands at, and the bits of the entry.
pub open spec fn spec_log_reading<TS, D>(ts_last: Option<TS>, d_last: Option<D>, ts: TS, d: D) -> (
    Option<TS>,
    Option<D>,
    Seq<bool>,
) where
    TS: Deltable + BitRoundTrip,
    <TS as Deltable>::DeltaType: BitRoundTrip,
    D: Deltable + BitArrayRoundTrip,
    <D as Deltable>::DeltaType: BitArrayRoundTrip,
 {
    let (tn, ti) = spec_encode(ts_last, ts);
    match ti {
        Either::Left(_) => (Some(ts), Some(d), reading_bits::<TS, D>(Either::Left(ts), Either::Left(d))),
        Either::Right(dt) => {
            let (dn, di) = spec_encode(d_last, d);
            (tn, dn, reading_bits::<TS, D>(Either::Right(dt), di))
        },
    }
}

/// The most bits that one entry takes.
pub open spec fn max_entry_bits<TS, D, U>() -> nat where
    TS: Deltable + BitRoundTrip,
    <TS as Deltable>::DeltaType: BitRoundTrip,
    D: Deltable + BitArrayRoundTrip,
    <D as Deltable>::DeltaType: BitArrayRoundTrip,
    U: BitArrayRoundTrip,
 {
    let ts_full = TS::spec_len_bits();
    let ts_delta = <TS as Deltable>::DeltaType::spec_len_bits();
    let d_full = <D as BitArrayDeserializable>::spec_len_bits();
    let d_delta = <<D as Deltable>::DeltaType as BitArrayDeserializable>::spec_len_bits();
    let a = 3 + ts_full + d_full;
    let b = 2 + ts_delta + d_full;
    let c = 2 + ts_delta + d_delta;
    let u = 2 + <U as BitArrayDeserializable>::spec_len_bits();
    let m1 = if a >= b { a } else { b };
    let m2 = if c >= u { c } else { u };
    if m1 >= m2 { m1 } else { m2 }
}

/// The bit buffer of `N` bytes holds any entry behind a partial byte, with
/// room to spare for the byte that a clear moves to the front.
pub open spec fn capacity_fits<TS, D, U, const N: usize>() -> bool where
    TS: Deltable + BitRoundTrip,
    <TS as Deltable>::DeltaType: BitRoundTrip,
    D: Deltable + BitArrayRoundTrip,
    <D as Deltable>::DeltaType: BitArrayRoundTrip,
    U: BitArrayRoundTrip,
 {
    &&& N <= max_view_bytes()
    &&& 7 + max_entry_bits::<TS, D, U>() < 8 * N
    &&& 7 + 3 < 8 * N
}

/// Writes readings as full values or deltas behind prefix-code headers.
///
/// The bytes that fill up are moved to an output queue, which the owner
/// drains into storage.
pub struct DeltaLogger<TS, D, U, const N: usize> where
    TS: Deltable + BitRoundTrip,
    <TS as Deltable>::DeltaType: BitRoundTrip,
    D: Deltable + BitArrayRoundTrip,
    <D as Deltable>::DeltaType: BitArrayRoundTrip,
    U: BitArrayRoundTrip,
 {
    factory: DeltaFactory<D>,
    timestamp_factory: DeltaFactory<TS>,
    bit_writer: BitSliceWriter<N>,
    last_entry_is_unix_time: bool,
    unix_time_log_buffer: Option<U>,
    output: Vec<u8>,
}

impl<TS, D, U, const N: usize> DeltaLogger<TS, D, U, N> where
    TS: Deltable + BitRoundTrip,
    <TS as Deltable>::DeltaType: BitRoundTrip,
    D: Deltable + BitArrayRoundTrip,
    <D as Deltable>::DeltaType: BitArrayRoundTrip,
    U: BitArrayRoundTrip,
 {
    /// Every bit written so far: the output queue, then the bits of the
    /// partial byte.
    pub closed spec fn stream(&self) -> Seq<bool> {
        bits_of(self.output@) + self.bit_writer.pending()
    }

    /// The bytes waiting in the output queue.
    pub closed spec fn output(&self) -> Seq<u8> {
        self.output@
    }

    pub closed spec fn last_timestamp(&self) -> Option<TS> {
        self.timestamp_factory.last_value
    }

    pub closed spec fn last_data(&self) -> Option<D> {
        self.factory.last_value
    }

    pub closed spec fn last_entry_is_unix(&self) -> bool {
        self.last_entry_is_unix_time
    }

    pub closed spec fn unix_buffer(&self) -> Option<U> {
        self.unix_time_log_buffer
    }

    pub closed spec fn wf(&self) -> bool {
        &&& capacity_fits::<TS, D, U, N>()
        &&& self.bit_writer.wf()
        &&& self.bit_writer.bit_len() < 8
    }

    pub fn new() -> (r: Self)
        requires
            capacity_fits::<TS, D, U, N>(),
        ensures
            r.wf(),
            r.stream() == Seq::<bool>::empty(),
            r.output() == Seq::<u8>::empty(),
            r.last_timestamp() is None,
            r.last_data() is None,
            !r.last_entry_is_unix(),
            r.unix_buffer() is None,
    {
        let r = Self {
            factory: DeltaFactory::new(),
            timestamp_factory: DeltaFactory::new(),
            bit_writer: BitSliceWriter::default(),
            last_entry_is_unix_time: false,
            unix_time_log_buffer: None,
            output: Vec::new(),
        };
        assert(bits_of(r.output@) =~= Seq::<bool>::empty());
        assert(r.stream() =~= Seq::<bool>::empty());
        r
    }

    /// Whether a buffer of `N` bytes fits this logger's entries.
    pub fn capacity_ok() -> (r: bool)
        ensures
            r == capacity_fits::<TS, D, U, N>(),
    {
        if !crate::bits::fits_bit_view(N) {
            return false;
        }
        let ts_full = <TS as FromBitSlice>::len_bits() as u128;
        let ts_delta = <<TS as Deltable>::DeltaType as FromBitSlice>::len_bits() as u128;
        let d_full = <D as BitArrayDeserializable>::len_bits() as u128;
        let d_delta = <<D as Deltable>::DeltaType as BitArrayDeserializable>::len_bits() as u128;
        let u = <U as BitArrayDeserializable>::len_bits() as u128;
        let a = 3 + ts_full + d_full;
        let b = 2 + ts_delta + d_full;
        let c = 2 + ts_delta + d_delta;
        let uu = 2 + u;
        let m1 = if a >= b {
            a
        } else {
            b
        };
        let m2 = if c >= uu {
            c
        } else {
            uu
        };
        let m = if m1 >= m2 {
            m1
        } else {
            m2
        };
        let cap = 8 * (N as u128);
        7 + m < cap && 10 < cap
    }

    /// The last timestamp the logger stands at, which a new reading's
    /// timestamp is compared with.
    pub fn last_timestamp_value(&self) -> (r: &Option<TS>)
        ensures
            *r == self.last_timestamp(),
    {
        &self.timestamp_factory.last_value
    }

    /// The data the logger stands at, which a new reading's data is
    /// compared with.
    pub fn last_data_value(&self) -> (r: &Option<D>)
        ensures
            *r == self.last_data(),
    {
        &self.factory.last_value
    }

    /// Whether the last entry written was a unix timestamp log.
    pub fn last_entry_is_unix_time(&self) -> (r: bool)
        ensures
            r == self.last_entry_is_unix(),
    {
        self.last_entry_is_unix_time
    }

    /// Moves the full bytes of the bit writer to the output queue.
    fn drain_full_bytes(&mut self)
        requires
            old(self).wf() || (capacity_fits::<TS, D, U, N>() && old(self).bit_writer.wf()
                && old(self).bit_writer.bit_len() < 8 * N),
        ensures
            final(self).stream() == old(self).stream(),
            final(self).bit_writer.wf(),
            final(self).bit_writer.bit_len() < 8,
            final(self).factory == old(self).factory,
            final(self).timestamp_factory == old(self).timestamp_factory,
            final(self).last_entry_is_unix_time == old(self).last_entry_is_unix_time,
            final(self).unix_time_log_buffer == old(self).unix_time_log_buffer,
    {
        let ghost old_out = self.output@;
        let ghost old_pending = self.bit_writer.pending();
        let full = self.bit_writer.view_full_byte_slice();
        let ghost full_bytes = full@;
        push_bytes(&mut self.output, full);
        proof {
            lemma_bits_of_concat(old_out, full_bytes);
        }
        let ghost k = 8 * (self.bit_writer.bit_len() / 8);
        assert(self.bit_writer.bit_len() < 8 * N);
        self.bit_writer.clear_full_byte_slice();
        assert(old_pending =~= old_pending.take(k) + old_pending.skip(k));
        assert(self.stream() =~= old(self).stream());
    }

    /// Logs `log`, or, right after another unix timestamp log, keeps it
    /// back to log later.
    pub fn log_unix_time(&mut self, log: U)
        requires
            old(self).wf(),
        ensures
            final(self).wf(),
            final(self).last_timestamp() == old(self).last_timestamp(),
            final(self).last_data() == old(self).last_data(),
            old(self).last_entry_is_unix() ==> {
                &&& final(self).unix_buffer() == Some(log)
                &&& final(self).stream() == old(self).stream()
                &&& final(self).last_entry_is_unix()
            },
            !old(self).last_entry_is_unix() ==> {
                &&& final(self).unix_buffer() == old(self).unix_buffer()
                &&& final(self).stream() == old(self).stream() + unix_time_bits(log)
                &&& final(self).last_entry_is_unix()
            },
            ({
                let (w, f, h) = call_effect(
                    old(self).last_entry_is_unix(),
                    old(self).unix_buffer(),
                    LoggerCall::UnixTime(log),
                );
                &&& final(self).stream() == old(self).stream() + written_bits(
                    w,
                    Seq::empty(),
                    Seq::empty(),
                )
                &&& final(self).last_entry_is_unix() == f
                &&& final(self).unix_buffer() == h
            }),
    {
        if self.last_entry_is_unix_time {
            self.unix_time_log_buffer = Some(log);
            assert(written_bits(Seq::<WrittenEntry<U>>::empty(), Seq::empty(), Seq::empty())
                =~= Seq::<bool>::empty());
            assert(self.stream() =~= old(self).stream() + Seq::<bool>::empty());
            return;
        }
        proof {
            U::lemma_round_trip(log);
        }
        let ghost s0 = self.stream();
        Header::UnixTimeStampLog.serialize(&mut self.bit_writer);
        log.serialize(&mut self.bit_writer);
        assert(self.stream() =~= s0 + unix_time_bits(log));
        self.drain_full_bytes();
        self.last_entry_is_unix_time = true;
        proof {
            let w = seq![WrittenEntry::Unix(log)];
            assert(w.skip(1) =~= Seq::<WrittenEntry<U>>::empty());
            assert(written_bits(w.skip(1), Seq::empty(), Seq::empty()) =~= Seq::<bool>::empty());
            assert(written_bits(w, Seq::empty(), Seq::empty()) =~= unix_time_bits(log));
        }
    }

    /// Writes a header and the two parts of an entry to the bit writer.
    fn write_entry<A: BitSliceWritable, B: BitArraySerializable>(&mut self, h: Header, a: A, b: &B)
        requires
            old(self).bit_writer.wf(),
            old(self).bit_writer.bit_len() + header_bits(h).len() + a.spec_bits().len()
                + b.spec_serialized().len() < 8 * N,
        ensures
            final(self).bit_writer.wf(),
            final(self).bit_writer.bit_len() < 8 * N,
            final(self).stream() == old(self).stream() + header_bits(h) + a.spec_bits()
                + b.spec_serialized(),
            final(self).factory == old(self).factory,
            final(self).timestamp_factory == old(self).timestamp_factory,
            final(self).last_entry_is_unix_time == old(self).last_entry_is_unix_time,
            final(self).unix_time_log_buffer == old(self).unix_time_log_buffer,
            final(self).output == old(self).output,
    {
        let ghost s0 = self.stream();
        let ghost ab = a.spec_bits();
        h.serialize(&mut self.bit_writer);
        self.bit_writer.write(a);
        b.serialize(&mut self.bit_writer);
        assert(self.stream() =~= s0 + header_bits(h) + ab + b.spec_serialized());
    }

    /// Writes a reading, after a unix timestamp log that was kept back, if
    /// any (which is kept back once more when the last entry was a unix
    /// timestamp log too).
    ///
    /// The timestamp goes out as a delta when the timestamp factory makes
    /// one, else whole, with the data whole; the data goes out as a delta
    /// when the data factory makes one.
    #[verifier::rlimit(60)]
    fn write_reading(&mut self, timestamp: TS, data: D)
        requires
            old(self).wf(),
            encodable(old(self).last_timestamp(), timestamp),
            spec_encode(old(self).last_timestamp(), timestamp).1 is Right ==> encodable(
                old(self).last_data(),
                data,
            ),
        ensures
            final(self).wf(),
            !final(self).last_entry_is_unix(),
            final(self).unix_buffer() == if old(self).last_entry_is_unix() {
                old(self).unix_buffer()
            } else {
                None
            },
            ({
                let s1 = match old(self).unix_buffer() {
                    Some(u) => if old(self).last_entry_is_unix() {
                        old(self).stream()
                    } else {
                        old(self).stream() + unix_time_bits(u)
                    },
                    None => old(self).stream(),
                };
                let (tn, dn, rec) = spec_log_reading(
                    old(self).last_timestamp(),
                    old(self).last_data(),
                    timestamp,
                    data,
                );
                &&& final(self).stream() == s1 + rec
                &&& tracks(final(self).last_timestamp(), tn)
                &&& tracks(final(self).last_data(), dn)
            }),
    {
        if let Some(u) = self.unix_time_log_buffer.take() {
            self.log_unix_time(u);
        }
        let ghost s1 = self.stream();
        proof {
            TS::lemma_round_trip(timestamp);
            D::lemma_round_trip(data);
        }
        let ts_item = self.timestamp_factory.push(timestamp);
        match ts_item {
            Either::Left(full_timestamp) => {
                self.write_entry(Header::FullTimestampFullData, full_timestamp, &data);
                self.factory.push_no_delta(data);
            },
            Either::Right(delta_timestamp) => {
                proof {
                    <TS as Deltable>::DeltaType::lemma_round_trip(delta_timestamp);
                }
                let d_item = self.factory.push(data);
                match d_item {
                    Either::Left(full_data) => {
                        self.write_entry(Header::DeltaTimestampFullData, delta_timestamp, &full_data);
                    },
                    Either::Right(delta) => {
                        proof {
                            <D as Deltable>::DeltaType::lemma_round_trip(delta);
                        }
                        self.write_entry(Header::DeltaTimestampDeltaData, delta_timestamp, &delta);
                    },
                }
            },
        }
        self.drain_full_bytes();
        self.last_entry_is_unix_time = false;
    }

    /// Ends the log: writes the end-of-byte code and moves every byte that
    /// holds a bit, the last one padded, to the output queue.
    pub fn flush(&mut self)
        requires
            old(self).wf(),
        ensures
            final(self).wf(),
            final(self).stream() == bits_of(final(self).output()),
            final(self).output().len() == old(self).output().len() + (old(self).stream().len()
                - 8 * old(self).output().len() + 3 + 7) / 8,
            final(self).stream().len() % 8 == 0,
            old(self).stream().len() + 3 <= final(self).stream().len() < old(self).stream().len()
                + 3 + 8,
            final(self).stream().take(old(self).stream().len() + 3int) == old(self).stream()
                + header_bits(Header::EndOfByte),
            final(self).stream().len() == old(self).stream().len() + 3 + pad_len(
                old(self).stream().len() as int,
            ),
            final(self).last_timestamp() == old(self).last_timestamp(),
            final(self).last_data() == old(self).last_data(),
            final(self).last_entry_is_unix() == old(self).last_entry_is_unix(),
            final(self).unix_buffer() == old(self).unix_buffer(),
            ({
                let (w, f, h) = call_effect(
                    old(self).last_entry_is_unix(),
                    old(self).unix_buffer(),
                    LoggerCall::Flush,
                );
                &&& final(self).stream() == old(self).stream() + written_bits(
                    w,
                    Seq::empty(),
                    final(self).stream().skip(old(self).stream().len() + 3int),
                )
                &&& final(self).last_entry_is_unix() == f
                &&& final(self).unix_buffer() == h
            }),
    {
        let ghost s0 = self.stream();
        let ghost out0 = self.output@;
        Header::EndOfByte.serialize(&mut self.bit_writer);
        let ghost p1 = self.bit_writer.pending();
        let all = self.bit_writer.view_all_data_slice();
        let ghost all_bytes = all@;
        push_bytes(&mut self.output, all);
        proof {
            lemma_bits_of_concat(out0, all_bytes);
        }
        self.bit_writer.clear();
        assert(bits_of(out0) + p1 =~= s0 + header_bits(Header::EndOfByte));
        assert(self.stream() =~= bits_of(out0) + bits_of(all_bytes));
        assert(self.stream().take(s0.len() + 3int) =~= s0 + header_bits(Header::EndOfByte));
        proof {
            let pad = self.stream().skip(s0.len() + 3int);
            let w = seq![WrittenEntry::<U>::EndOfByte];
            assert(w.skip(1) =~= Seq::<WrittenEntry<U>>::empty());
            assert(written_bits(w.skip(1), Seq::empty(), pad) =~= Seq::<bool>::empty());
            assert(written_bits(w, Seq::empty(), pad) =~= header_bits(Header::EndOfByte) + pad);
            assert(self.stream() =~= self.stream().take(s0.len() + 3int) + pad);
            assert(self.stream() =~= s0 + written_bits(w, Seq::empty(), pad));
        }
    }

    /// Hands out the bytes waiting in the output queue and empties it.
    pub fn take_output(&mut self) -> (r: Vec<u8>)
        requires
            old(self).wf(),
        ensures
            final(self).wf(),
            r@ == old(self).output(),
            final(self).output() == Seq::<u8>::empty(),
            bits_of(r@) + final(self).stream() == old(self).stream(),
            final(self).last_timestamp() == old(self).last_timestamp(),
            final(self).last_data() == old(self).last_data(),
            final(self).last_entry_is_unix() == old(self).last_entry_is_unix(),
            final(self).unix_buffer() == old(self).unix_buffer(),
    {
        let mut r = Vec::new();
        core::mem::swap(&mut r, &mut self.output);
        assert(bits_of(self.output@) =~= Seq::<bool>::empty());
        assert(bits_of(r@) + self.stream() =~= old(self).stream());
        r
    }
}

/// Whether a reading at `ts` is too close to the last one, at `last`, to be
/// logged: less than one step after it.
pub open spec fn too_close<TS: StepTimestamp>(last: Option<TS>, ts: TS) -> bool {
    last matches Some(t0) && ts.spec_steps() <= t0.spec_steps()
}

/// The drop rule: with no reading logged yet nothing is too close; a reading
/// at least one step after the last one is never too close, however large
/// the gap; and one at the same step or before it always is.
pub proof fn lemma_too_close_only_within_a_step<TS: StepTimestamp>(ts: TS, t0: TS)
    ensures
        !too_close(None, ts),
        ts.spec_steps() > t0.spec_steps() ==> !too_close(Some(t0), ts),
        ts.spec_steps() <= t0.spec_steps() ==> too_close(Some(t0), ts),
{
}

/// For timestamps counted in ticks, a reading is dropped exactly when its
/// tick is not after the last logged tick.
pub proof fn lemma_ticks_too_close(last: u64, ts: u64)
    ensures
        too_close(Some(TimestampTicks(last)), TimestampTicks(ts)) == (ts <= last),
        ts > last ==> !too_close(Some(TimestampTicks(last)), TimestampTicks(ts)),
{
}

impl<TS, D, U, const N: usize> DeltaLogger<TS, D, U, N> where
    TS: Deltable + BitRoundTrip + StepTimestamp,
    <TS as Deltable>::DeltaType: BitRoundTrip,
    D: Deltable + BitArrayRoundTrip,
    <D as Deltable>::DeltaType: BitArrayRoundTrip,
    U: BitArrayRoundTrip,
 {
    /// Whether `log` can take `timestamp` and `data` now: it drops them as
    /// too close to the last reading, or every delta the factories would
    /// hand out applies again.
    pub fn accepts(&self, timestamp: &TS, data: &D) -> (r: bool)
        ensures
            r == (too_close(self.last_timestamp(), *timestamp) || (encodable(
                self.last_timestamp(),
                *timestamp,
            ) && (spec_encode(self.last_timestamp(), *timestamp).1 is Right ==> encodable(
                self.last_data(),
                *data,
            )))),
    {
        if self.is_too_close(timestamp) {
            return true;
        }
        if !crate::delta_logger::delta_factory::can_encode(&self.timestamp_factory.last_value, timestamp) {
            return false;
        }
        let ts_is_delta = match &self.timestamp_factory.last_value {
            Some(l) => timestamp.subtract(l).is_some(),
            None => false,
        };
        !ts_is_delta || crate::delta_logger::delta_factory::can_encode(&self.factory.last_value, data)
    }

    /// Whether a reading at `timestamp` is less than one step after the last
    /// reading logged.
    fn is_too_close(&self, timestamp: &TS) -> (r: bool)
        ensures
            r == too_close(self.last_timestamp(), *timestamp),
    {
        match &self.timestamp_factory.last_value {
            Some(last) => timestamp.steps() <= last.steps(),
            None => false,
        }
    }

    /// Logs a reading and returns `true`, unless it is less than one step
    /// after the last reading logged: then it is ignored, nothing changes,
    /// and the result is `false`.
    ///
    /// A unix timestamp log that was kept back goes out first (kept back
    /// once more when the last entry was a unix timestamp log too). The
    /// timestamp goes out as a delta when the timestamp factory makes one,
    /// else whole, with the data whole; the data goes out as a delta when
    /// the data factory makes one.
    pub fn log(&mut self, timestamp: TS, data: D) -> (logged: bool)
        requires
            old(self).wf(),
            !too_close(old(self).last_timestamp(), timestamp) ==> encodable(
                old(self).last_timestamp(),
                timestamp,
            ),
            !too_close(old(self).last_timestamp(), timestamp) && spec_encode(
                old(self).last_timestamp(),
                timestamp,
            ).1 is Right ==> encodable(old(self).last_data(), data),
        ensures
            logged == !too_close(old(self).last_timestamp(), timestamp),
            !logged ==> *final(self) == *old(self),
            final(self).wf(),
            logged ==> !final(self).last_entry_is_unix(),
            logged ==> final(self).unix_buffer() == if old(self).last_entry_is_unix() {
                old(self).unix_buffer()
            } else {
                None
            },
            logged ==> ({
                let s1 = match old(self).unix_buffer() {
                    Some(u) => if old(self).last_entry_is_unix() {
                        old(self).stream()
                    } else {
                        old(self).stream() + unix_time_bits(u)
                    },
                    None => old(self).stream(),
                };
                let (tn, dn, rec) = spec_log_reading(
                    old(self).last_timestamp(),
                    old(self).last_data(),
                    timestamp,
                    data,
                );
                &&& final(self).stream() == s1 + rec
                &&& tracks(final(self).last_timestamp(), tn)
                &&& tracks(final(self).last_data(), dn)
            }),
            logged ==> ({
                let (tn, dn, rec) = spec_log_reading(
                    old(self).last_timestamp(),
                    old(self).last_data(),
                    timestamp,
                    data,
                );
                let (w, f, h) = call_effect(
                    old(self).last_entry_is_unix(),
                    old(self).unix_buffer(),
                    LoggerCall::Reading,
                );
                &&& final(self).stream() == old(self).stream() + written_bits(w, rec, Seq::empty())
                &&& final(self).last_entry_is_unix() == f
                &&& final(self).unix_buffer() == h
            }),
    {
        if self.is_too_close(&timestamp) {
            return false;
        }
        self.write_reading(timestamp, data);
        proof {
            let (tn, dn, rec) = spec_log_reading(
                old(self).last_timestamp(),
                old(self).last_data(),
                timestamp,
                data,
            );
            let e = Seq::<bool>::empty();
            let r1 = seq![WrittenEntry::<U>::Reading];
            assert(r1.skip(1) =~= Seq::<WrittenEntry<U>>::empty());
            assert(written_bits(r1.skip(1), rec, e) =~= e);
            assert(written_bits(r1, rec, e) =~= rec);
            match old(self).unix_buffer() {
                Some(u) => {
                    let r2 = seq![WrittenEntry::Unix(u), WrittenEntry::<U>::Reading];
                    assert(r2.skip(1) =~= r1);
                    assert(written_bits(r2, rec, e) =~= unix_time_bits(u) + rec);
                    assert(old(self).stream() + rec =~= old(self).stream() + written_bits(r1, rec, e));
                },
                None => {
                    assert(old(self).stream() + rec =~= old(self).stream() + written_bits(r1, rec, e));
                },
            }
        }
        true
    }

}

} // verus!

verus! {

/// Bits that an entry with header `h` takes, header included.
pub open spec fn entry_len<TS, D, U>(h: Header) -> nat where
    TS: Deltable + BitRoundTrip,
    <TS as Deltable>::DeltaType: BitRoundTrip,
    D: Deltable + BitArrayRoundTrip,
    <D as Deltable>::DeltaType: BitArrayRoundTrip,
    U: BitArrayRoundTrip,
 {
    match h {
        Header::DeltaTimestampDeltaData => 2 + <TS as Deltable>::DeltaType::spec_len_bits()
            + <<D as Deltable>::DeltaType as BitArrayDeserializable>::spec_len_bits(),
        Header::DeltaTimestampFullData => 2 + <TS as Deltable>::DeltaType::spec_len_bits()
            + <D as BitArrayDeserializable>::spec_len_bits(),
        Header::UnixTimeStampLog => 2 + <U as BitArrayDeserializable>::spec_len_bits(),
        Header::EndOfByte => 3,
        Header::FullTimestampFullData => 3 + <TS as FromBitSlice>::spec_len_bits()
            + <D as BitArrayDeserializable>::spec_len_bits(),
    }
}

/// What a reader that last stood at `ts_last` and `d_last` makes of the
/// payload `p` of an entry with header `h`: the values it then stands at,
/// and the entry it hands out, or `None` when a delta has nothing to apply
/// to and the entry is skipped.
pub open spec fn spec_read_payload<TS, D, U>(
    h: Header,
    ts_last: Option<TS>,
    d_last: Option<D>,
    p: Seq<bool>,
) -> (Option<TS>, Option<D>, Option<Either<(TS, D), U>>) where
    TS: Deltable + BitRoundTrip,
    <TS as Deltable>::DeltaType: BitRoundTrip,
    D: Deltable + BitArrayRoundTrip,
    <D as Deltable>::DeltaType: BitArrayRoundTrip,
    U: BitArrayRoundTrip,
 {
    let tl = <TS as FromBitSlice>::spec_len_bits() as int;
    let dtl = <TS as Deltable>::DeltaType::spec_len_bits() as int;
    match h {
        Header::UnixTimeStampLog => (
            ts_last,
            d_last,
            Some(Either::Right(U::spec_deserialize(p))),
        ),
        Header::FullTimestampFullData => {
            let t = TS::spec_from_bits(p.take(tl));
            let d = D::spec_deserialize(p.skip(tl));
            (Some(t), Some(d), Some(Either::Left((t, d))))
        },
        Header::DeltaTimestampFullData => {
            let dt = <TS as Deltable>::DeltaType::spec_from_bits(p.take(dtl));
            let (tn, to) = spec_decode(ts_last, Either::<TS, <TS as Deltable>::DeltaType>::Right(dt));
            let d = D::spec_deserialize(p.skip(dtl));
            (
                tn,
                Some(d),
                match to {
                    Some(t) => Some(Either::Left((t, d))),
                    None => None,
                },
            )
        },
        Header::DeltaTimestampDeltaData => {
            let dt = <TS as Deltable>::DeltaType::spec_from_bits(p.take(dtl));
            let (tn, to) = spec_decode(ts_last, Either::<TS, <TS as Deltable>::DeltaType>::Right(dt));
            let dd = <D as Deltable>::DeltaType::spec_deserialize(p.skip(dtl));
            let (dn, dout) = spec_decode(d_last, Either::<D, <D as Deltable>::DeltaType>::Right(dd));
            (
                tn,
                dn,
                match (to, dout) {
                    (Some(t), Some(d)) => Some(Either::Left((t, d))),
                    _ => None,
                },
            )
        },
        Header::EndOfByte => (ts_last, d_last, None),
    }
}

/// A logged reading reads back: a reader that stands where the logger
/// stood parses the entry's header, finds the whole entry, and hands out
/// the timestamp and data the logger then stands at, standing there too.
pub proof fn lemma_reading_round_trip<TS, D, U>(
    ts_last: Option<TS>,
    d_last: Option<D>,
    ts: TS,
    d: D,
    rest: Seq<bool>,
) where
    TS: Deltable + BitRoundTrip,
    <TS as Deltable>::DeltaType: BitRoundTrip,
    D: Deltable + BitArrayRoundTrip,
    <D as Deltable>::DeltaType: BitArrayRoundTrip,
    U: BitArrayRoundTrip,

    requires
        encodable(ts_last, ts),
        spec_encode(ts_last, ts).1 is Right ==> encodable(d_last, d),
    ensures
        ({
            let (tn, dn, rec) = spec_log_reading(ts_last, d_last, ts, d);
            let s = rec + rest;
            let h = spec_parse_header(s).unwrap();
            &&& spec_parse_header(s) is Some
            &&& h != Header::EndOfByte
            &&& h != Header::UnixTimeStampLog
            &&& entry_len::<TS, D, U>(h) == rec.len()
            &&& spec_read_payload::<TS, D, U>(
                h,
                ts_last,
                d_last,
                s.subrange(header_bits(h).len() as int, rec.len() as int),
            ) == (tn, dn, Some(Either::<(TS, D), U>::Left((tn.unwrap(), dn.unwrap()))))
            &&& tn is Some
            &&& dn is Some
        }),
{
    let (tn, dn, rec) = spec_log_reading(ts_last, d_last, ts, d);
    let s = rec + rest;
    let (tn0, ti) = spec_encode(ts_last, ts);
    crate::delta_logger::delta_factory::lemma_decoder_tracks_encoder(ts_last, ts);
    TS::lemma_round_trip(ts);
    D::lemma_round_trip(d);
    match ti {
        Either::Left(_) => {
            let h = Header::FullTimestampFullData;
            lemma_parse_header(h, ts.spec_bits() + d.spec_serialized() + rest);
            assert(s =~= header_bits(h) + (ts.spec_bits() + d.spec_serialized() + rest));
            let p = s.subrange(3, rec.len() as int);
            assert(p =~= ts.spec_bits() + d.spec_serialized());
            assert(p.take(ts.spec_bits().len() as int) =~= ts.spec_bits());
            assert(p.skip(ts.spec_bits().len() as int) =~= d.spec_serialized());
        },
        Either::Right(dt) => {
            <TS as Deltable>::DeltaType::lemma_round_trip(dt);
            let (dn0, di) = spec_encode(d_last, d);
            crate::delta_logger::delta_factory::lemma_decoder_tracks_encoder(d_last, d);
            match di {
                Either::Left(_) => {
                    let h = Header::DeltaTimestampFullData;
                    lemma_parse_header(h, dt.spec_bits() + d.spec_serialized() + rest);
                    assert(s =~= header_bits(h) + (dt.spec_bits() + d.spec_serialized() + rest));
                    let p = s.subrange(2, rec.len() as int);
                    assert(p =~= dt.spec_bits() + d.spec_serialized());
                    assert(p.take(dt.spec_bits().len() as int) =~= dt.spec_bits());
                    assert(p.skip(dt.spec_bits().len() as int) =~= d.spec_serialized());
                },
                Either::Right(dd) => {
                    <D as Deltable>::DeltaType::lemma_round_trip(dd);
                    let h = Header::DeltaTimestampDeltaData;
                    lemma_parse_header(h, dt.spec_bits() + dd.spec_serialized() + rest);
                    assert(s =~= header_bits(h) + (dt.spec_bits() + dd.spec_serialized() + rest));
                    let p = s.subrange(2, rec.len() as int);
                    assert(p =~= dt.spec_bits() + dd.spec_serialized());
                    assert(p.take(dt.spec_bits().len() as int) =~= dt.spec_bits());
                    assert(p.skip(dt.spec_bits().len() as int) =~= dd.spec_serialized());
                },
            }
        },
    }
}

/// A logged unix timestamp log reads back, and leaves the reader's last
/// values alone.
pub proof fn lemma_unix_time_round_trip<TS, D, U>(
    ts_last: Option<TS>,
    d_last: Option<D>,
    u: U,
    rest: Seq<bool>,
) where
    TS: Deltable + BitRoundTrip,
    <TS as Deltable>::DeltaType: BitRoundTrip,
    D: Deltable + BitArrayRoundTrip,
    <D as Deltable>::DeltaType: BitArrayRoundTrip,
    U: BitArrayRoundTrip,

    ensures
        ({
            let s = unix_time_bits(u) + rest;
            &&& spec_parse_header(s) == Some(Header::UnixTimeStampLog)
            &&& entry_len::<TS, D, U>(Header::UnixTimeStampLog) == unix_time_bits(u).len()
            &&& spec_read_payload::<TS, D, U>(
                Header::UnixTimeStampLog,
                ts_last,
                d_last,
                s.subrange(2, unix_time_bits(u).len() as int),
            ) == (ts_last, d_last, Some(Either::<(TS, D), U>::Right(u)))
        }),
{
    U::lemma_round_trip(u);
    let s = unix_time_bits(u) + rest;
    lemma_parse_header(Header::UnixTimeStampLog, u.spec_serialized() + rest);
    assert(s =~= header_bits(Header::UnixTimeStampLog) + (u.spec_serialized() + rest));
    assert(s.subrange(2, unix_time_bits(u).len() as int) =~= u.spec_serialized());
}

} // verus!

verus! {

/// An entry of a log: a reading (timestamp and data), a unix timestamp
/// log, or a flush, which ends the byte with the end-of-byte code and
/// `padding`, whatever bits fill the byte after it.
pub enum LogEntry<TS, D, U> {
    Reading(TS, D),
    Unix(U),
    Flush(Seq<bool>),
}

/// The number of padding bits after an end-of-byte code that begins at bit
/// `pos`: up to the next byte boundary.
pub open spec fn pad_len(pos: int) -> int {
    (8 - (pos + 3) % 8) % 8
}

/// Whether a logger that stands at `ts_last` and `d_last` can write
/// `entries` one after the other, from bit `pos` of its stream on.
pub open spec fn stream_encodable<TS, D, U>(
    ts_last: Option<TS>,
    d_last: Option<D>,
    pos: int,
    entries: Seq<LogEntry<TS, D, U>>,
) -> bool where
    TS: Deltable + BitRoundTrip,
    <TS as Deltable>::DeltaType: BitRoundTrip,
    D: Deltable + BitArrayRoundTrip,
    <D as Deltable>::DeltaType: BitArrayRoundTrip,
    U: BitArrayRoundTrip,

    decreases entries.len(),
{
    if entries.len() == 0 {
        true
    } else {
        match entries[0] {
            LogEntry::Reading(t, d) => {
                let (tn, dn, rec) = spec_log_reading(ts_last, d_last, t, d);
                &&& encodable(ts_last, t)
                &&& spec_encode(ts_last, t).1 is Right ==> encodable(d_last, d)
                &&& stream_encodable(tn, dn, pos + rec.len(), entries.skip(1))
            },
            LogEntry::Unix(u) => stream_encodable(
                ts_last,
                d_last,
                pos + unix_time_bits(u).len(),
                entries.skip(1),
            ),
            LogEntry::Flush(padding) => {
                &&& padding.len() == pad_len(pos)
                &&& stream_encodable(ts_last, d_last, pos + 3 + padding.len(), entries.skip(1))
            },
        }
    }
}

/// The bits that a logger standing at `ts_last` and `d_last` writes for
/// `entries`, and what each reading and unix timestamp log should read
/// back as: a reading as the timestamp and data the logger then stands at,
/// a unix timestamp log as itself. A flush reads back as nothing.
pub open spec fn spec_stream<TS, D, U>(
    ts_last: Option<TS>,
    d_last: Option<D>,
    entries: Seq<LogEntry<TS, D, U>>,
) -> (Seq<bool>, Seq<Either<(TS, D), U>>) where
    TS: Deltable + BitRoundTrip,
    <TS as Deltable>::DeltaType: BitRoundTrip,
    D: Deltable + BitArrayRoundTrip,
    <D as Deltable>::DeltaType: BitArrayRoundTrip,
    U: BitArrayRoundTrip,

    decreases entries.len(),
{
    if entries.len() == 0 {
        (Seq::empty(), Seq::empty())
    } else {
        match entries[0] {
            LogEntry::Reading(t, d) => {
                let (tn, dn, rec) = spec_log_reading(ts_last, d_last, t, d);
                let (bits, outs) = spec_stream(tn, dn, entries.skip(1));
                (
                    rec + bits,
                    seq![Either::<(TS, D), U>::Left((tn.unwrap(), dn.unwrap()))] + outs,
                )
            },
            LogEntry::Unix(u) => {
                let (bits, outs) = spec_stream(ts_last, d_last, entries.skip(1));
                (unix_time_bits(u) + bits, seq![Either::<(TS, D), U>::Right(u)] + outs)
            },
            LogEntry::Flush(padding) => {
                let (bits, outs) = spec_stream(ts_last, d_last, entries.skip(1));
                (header_bits(Header::EndOfByte) + padding + bits, outs)
            },
        }
    }
}

/// What a reader that stands at `ts_last` and `d_last`, at bit `pos` of the
/// log, hands out when it reads up to `n` entries from `bits`, entry by
/// entry as `inner_read` does: it stops at an entry it cannot tell or that
/// is cut short; an end-of-byte code is skipped with the rest of its byte.
pub open spec fn spec_read_entries<TS, D, U>(
    ts_last: Option<TS>,
    d_last: Option<D>,
    bits: Seq<bool>,
    pos: int,
    n: nat,
) -> Seq<Either<(TS, D), U>> where
    TS: Deltable + BitRoundTrip,
    <TS as Deltable>::DeltaType: BitRoundTrip,
    D: Deltable + BitArrayRoundTrip,
    <D as Deltable>::DeltaType: BitArrayRoundTrip,
    U: BitArrayRoundTrip,

    decreases n,
{
    if n == 0 {
        Seq::empty()
    } else {
        match spec_parse_header(bits) {
            None => Seq::empty(),
            Some(h) => if h == Header::EndOfByte {
                let k = 3 + pad_len(pos);
                if bits.len() < k {
                    Seq::empty()
                } else {
                    spec_read_entries::<TS, D, U>(
                        ts_last,
                        d_last,
                        bits.skip(k),
                        pos + k,
                        (n - 1) as nat,
                    )
                }
            } else {
                let len = entry_len::<TS, D, U>(h);
                if bits.len() < len {
                    Seq::empty()
                } else {
                    let (tn, dn, out) = spec_read_payload::<TS, D, U>(
                        h,
                        ts_last,
                        d_last,
                        bits.subrange(header_bits(h).len() as int, len as int),
                    );
                    let rest = spec_read_entries::<TS, D, U>(
                        tn,
                        dn,
                        bits.skip(len as int),
                        pos + len,
                        (n - 1) as nat,
                    );
                    match out {
                        Some(x) => seq![x] + rest,
                        None => rest,
                    }
                }
            },
        }
    }
}

/// A log reads back: a reader that starts where the logger started, at the
/// same bit of a byte, reads from the bits of any run of entries followed by
/// anything what `spec_stream` says: the logged unix timestamp logs, and for
/// each reading the timestamp and data the logger then stood at; it skips
/// each flush's end-of-byte code and padding and reads on after it.
#[verifier::rlimit(40)]
pub proof fn lemma_stream_round_trip<TS, D, U>(
    ts_last: Option<TS>,
    d_last: Option<D>,
    pos: int,
    entries: Seq<LogEntry<TS, D, U>>,
    rest: Seq<bool>,
) where
    TS: Deltable + BitRoundTrip,
    <TS as Deltable>::DeltaType: BitRoundTrip,
    D: Deltable + BitArrayRoundTrip,
    <D as Deltable>::DeltaType: BitArrayRoundTrip,
    U: BitArrayRoundTrip,

    requires
        stream_encodable(ts_last, d_last, pos, entries),
    ensures
        ({
            let (bits, outs) = spec_stream(ts_last, d_last, entries);
            spec_read_entries::<TS, D, U>(ts_last, d_last, bits + rest, pos, entries.len()) == outs
        }),
    decreases entries.len(),
{
    if entries.len() > 0 {
        let tail = entries.skip(1);
        match entries[0] {
            LogEntry::Reading(t, d) => {
                let (tn, dn, rec) = spec_log_reading(ts_last, d_last, t, d);
                let (bits1, outs1) = spec_stream(tn, dn, tail);
                lemma_stream_round_trip::<TS, D, U>(tn, dn, pos + rec.len(), tail, rest);
                lemma_reading_round_trip::<TS, D, U>(ts_last, d_last, t, d, bits1 + rest);
                let s = rec + bits1 + rest;
                assert(rec + (bits1 + rest) =~= s);
                let h = spec_parse_header(s).unwrap();
                assert(s.skip(rec.len() as int) =~= bits1 + rest);
            },
            LogEntry::Unix(u) => {
                let (bits1, outs1) = spec_stream(ts_last, d_last, tail);
                lemma_unix_time_round_trip::<TS, D, U>(ts_last, d_last, u, bits1 + rest);
                lemma_stream_round_trip::<TS, D, U>(
                    ts_last,
                    d_last,
                    pos + unix_time_bits(u).len(),
                    tail,
                    rest,
                );
                let s = unix_time_bits(u) + bits1 + rest;
                assert(unix_time_bits(u) + (bits1 + rest) =~= s);
                assert(s.skip(unix_time_bits(u).len() as int) =~= bits1 + rest);
            },
            LogEntry::Flush(padding) => {
                let (bits1, outs1) = spec_stream(ts_last, d_last, tail);
                lemma_stream_round_trip::<TS, D, U>(
                    ts_last,
                    d_last,
                    pos + 3 + padding.len(),
                    tail,
                    rest,
                );
                let e = header_bits(Header::EndOfByte);
                let s = e + padding + bits1 + rest;
                lemma_parse_header(Header::EndOfByte, padding + bits1 + rest);
                assert(e + (padding + bits1 + rest) =~= s);
                assert(s.skip(3 + padding.len() as int) =~= bits1 + rest);
            },
        }
    }
}

/// What one step of reading a log comes to.
pub enum ReadStep<TS, D, U> {
    /// The next entry needs at least this many bits; bring more bytes.
    NeedMoreBits(usize),
    /// An entry was consumed that gives nothing to hand out.
    TryAgain,
    /// A reading (timestamp and data) or a unix timestamp log.
    Data(Either<(TS, D), U>),
}

/// `n`, or `usize::MAX` when `n` is larger.
pub open spec fn clamp_usize(n: nat) -> usize {
    if n > usize::MAX {
        usize::MAX
    } else {
        n as usize
    }
}

/// Reads back what a `DeltaLogger` wrote.
pub struct DeltaLoggerReader<TS, D, U, const N: usize> where
    TS: Deltable + BitRoundTrip,
    <TS as Deltable>::DeltaType: BitRoundTrip,
    D: Deltable + BitArrayRoundTrip,
    <D as Deltable>::DeltaType: BitArrayRoundTrip,
    U: BitArrayRoundTrip,
 {
    factory: UnDeltaFactory<D>,
    timestamp_factory: UnDeltaFactory<TS>,
    bit_reader: BitSliceReader<N>,
    phantom: core::marker::PhantomData<U>,
}

impl<TS, D, U, const N: usize> DeltaLoggerReader<TS, D, U, N> where
    TS: Deltable + BitRoundTrip,
    <TS as Deltable>::DeltaType: BitRoundTrip,
    D: Deltable + BitArrayRoundTrip,
    <D as Deltable>::DeltaType: BitArrayRoundTrip,
    U: BitArrayRoundTrip,
 {
    /// The bits brought in and not read yet.
    pub closed spec fn available(&self) -> Seq<bool> {
        self.bit_reader.available()
    }

    /// Where in its buffer the next bit to read stands.
    pub closed spec fn bit_start(&self) -> int {
        self.bit_reader.start_pos()
    }

    pub closed spec fn last_timestamp(&self) -> Option<TS> {
        self.timestamp_factory.last()
    }

    pub closed spec fn last_data(&self) -> Option<D> {
        self.factory.last()
    }

    pub closed spec fn wf(&self) -> bool {
        self.bit_reader.wf()
    }

    /// The bits not read yet end on a byte boundary of the buffer, which
    /// holds them.
    pub open spec fn aligned(&self) -> bool {
        &&& 0 <= self.bit_start()
        &&& (self.bit_start() + self.available().len()) % 8 == 0
        &&& self.bit_start() + self.available().len() <= 8 * N
    }

    /// A well-formed reader is aligned.
    pub proof fn lemma_wf_aligned(&self)
        requires
            self.wf(),
        ensures
            self.aligned(),
    {
    }

    pub fn new() -> (r: Self)
        requires
            N <= max_view_bytes(),
        ensures
            r.wf(),
            r.bit_start() == 0,
            r.available() == Seq::<bool>::empty(),
            r.last_timestamp() is None,
            r.last_data() is None,
    {
        Self {
            factory: UnDeltaFactory::new(),
            timestamp_factory: UnDeltaFactory::new(),
            bit_reader: BitSliceReader::default(),
            phantom: core::marker::PhantomData,
        }
    }

    /// Number of bits brought in and not read yet.
    pub fn len_bits(&self) -> (r: usize)
        requires
            self.wf(),
        ensures
            r == self.available().len(),
    {
        self.bit_reader.len_bits()
    }

    /// Makes room for new bytes and returns how many can come in.
    pub fn prepare_replenish(&mut self) -> (r: usize)
        requires
            old(self).wf(),
        ensures
            final(self).wf(),
            final(self).available() == old(self).available(),
            final(self).bit_start() == (8 - old(self).available().len() % 8) % 8,
            r == (8 * N - old(self).available().len()) / 8,
            final(self).last_timestamp() == old(self).last_timestamp(),
            final(self).last_data() == old(self).last_data(),
    {
        self.bit_reader.prepare_replenish()
    }

    /// Takes in bytes that were read after `prepare_replenish`.
    pub fn commit_replenish(&mut self, data: &[u8])
        requires
            old(self).wf(),
            old(self).bit_start() < 8,
            data@.len() <= (8 * N - old(self).available().len()) / 8,
        ensures
            final(self).wf(),
            final(self).available() == old(self).available() + bits_of(data@),
            final(self).bit_start() == old(self).bit_start(),
            final(self).last_timestamp() == old(self).last_timestamp(),
            final(self).last_data() == old(self).last_data(),
    {
        proof {
            let len = self.bit_reader.available().len();
            let e = self.bit_reader.end();
            let st = self.bit_reader.start_pos();
            assert(e == st + len);
            assert(e % 8 == 0);
            assert(e / 8 * 8 == e);
            assert((8 * N - len) / 8 == N - e / 8) by {
                assert(8 * N - len == 8 * (N - e / 8) + st);
            }
        }
        self.bit_reader.commit_replenish(data)
    }

    /// Reads the payload of an entry whose header bits were read already.
    #[verifier::rlimit(40)]
    fn read_payload(&mut self, h: Header) -> (r: ReadStep<TS, D, U>)
        requires
            old(self).wf(),
            h != Header::EndOfByte,
            old(self).available().len() >= entry_len::<TS, D, U>(h) - header_bits(h).len(),
        ensures
            final(self).wf(),
            ({
                let n = entry_len::<TS, D, U>(h) - header_bits(h).len();
                let (tn, dn, out) = spec_read_payload::<TS, D, U>(
                    h,
                    old(self).last_timestamp(),
                    old(self).last_data(),
                    old(self).available().take(n),
                );
                &&& final(self).available() == old(self).available().skip(n)
                &&& final(self).bit_start() == old(self).bit_start() + n
                &&& h == Header::UnixTimeStampLog ==> {
                    &&& final(self).last_timestamp() == old(self).last_timestamp()
                    &&& final(self).last_data() == old(self).last_data()
                }
                &&& h != Header::UnixTimeStampLog ==> {
                    &&& tracks(final(self).last_timestamp(), tn)
                    &&& tracks(final(self).last_data(), dn)
                }
                &&& match out {
                    Some(x) => r == ReadStep::<TS, D, U>::Data(x),
                    None => r is TryAgain,
                }
            }),
    {
        let ghost a = self.bit_reader.available();
        let ghost n = entry_len::<TS, D, U>(h) - header_bits(h).len();
        let ghost p = a.take(n);
        let ghost tl = <TS as FromBitSlice>::spec_len_bits() as int;
        let ghost dtl = <TS as Deltable>::DeltaType::spec_len_bits() as int;
        match h {
            Header::UnixTimeStampLog => {
                let log = U::deserialize(&mut self.bit_reader);
                assert(p =~= a.take(<U as BitArrayDeserializable>::spec_len_bits() as int));
                ReadStep::Data(Either::Right(log))
            },
            Header::FullTimestampFullData => {
                let t_opt = self.bit_reader.read::<TS>();
                let t = t_opt.unwrap();
                let d = D::deserialize(&mut self.bit_reader);
                assert(p.take(tl) =~= a.take(tl));
                assert(p.skip(tl) =~= a.skip(tl).take(
                    <D as BitArrayDeserializable>::spec_len_bits() as int,
                ));
                assert(self.bit_reader.available() =~= a.skip(n));
                let t_out = self.timestamp_factory.push(t);
                let d_out = self.factory.push(d);
                ReadStep::Data(Either::Left((t_out, d_out)))
            },
            Header::DeltaTimestampFullData => {
                let dt_opt = self.bit_reader.read::<<TS as Deltable>::DeltaType>();
                let dt = dt_opt.unwrap();
                let d = D::deserialize(&mut self.bit_reader);
                assert(p.take(dtl) =~= a.take(dtl));
                assert(p.skip(dtl) =~= a.skip(dtl).take(
                    <D as BitArrayDeserializable>::spec_len_bits() as int,
                ));
                assert(self.bit_reader.available() =~= a.skip(n));
                let t_out = self.timestamp_factory.push_delta(dt);
                let d_out = self.factory.push(d);
                match t_out {
                    Some(t) => ReadStep::Data(Either::Left((t, d_out))),
                    None => ReadStep::TryAgain,
                }
            },
            Header::DeltaTimestampDeltaData => {
                let dt_opt = self.bit_reader.read::<<TS as Deltable>::DeltaType>();
                let dt = dt_opt.unwrap();
                let dd = <D as Deltable>::DeltaType::deserialize(&mut self.bit_reader);
                assert(p.take(dtl) =~= a.take(dtl));
                assert(p.skip(dtl) =~= a.skip(dtl).take(
                    <<D as Deltable>::DeltaType as BitArrayDeserializable>::spec_len_bits() as int,
                ));
                assert(self.bit_reader.available() =~= a.skip(n));
                let t_out = self.timestamp_factory.push_delta(dt);
                let d_out = self.factory.push_delta(dd);
                match (t_out, d_out) {
                    (Some(t), Some(d)) => ReadStep::Data(Either::Left((t, d))),
                    _ => ReadStep::TryAgain,
                }
            },
            Header::EndOfByte => {
                proof {
                    assert(false);
                }
                ReadStep::TryAgain
            },
        }
    }

    /// Bits that an entry with header `h` takes, or `usize::MAX` when more
    /// than that.
    fn entry_len_bits(h: &Header) -> (r: usize)
        ensures
            r == clamp_usize(entry_len::<TS, D, U>(*h)),
    {
        match h {
            Header::DeltaTimestampDeltaData => sum_clamped(
                2,
                <<TS as Deltable>::DeltaType as FromBitSlice>::len_bits(),
                <<D as Deltable>::DeltaType as BitArrayDeserializable>::len_bits(),
            ),
            Header::DeltaTimestampFullData => sum_clamped(
                2,
                <<TS as Deltable>::DeltaType as FromBitSlice>::len_bits(),
                <D as BitArrayDeserializable>::len_bits(),
            ),
            Header::UnixTimeStampLog => sum_clamped(2, <U as BitArrayDeserializable>::len_bits(), 0),
            Header::EndOfByte => 3,
            Header::FullTimestampFullData => sum_clamped(
                3,
                <TS as FromBitSlice>::len_bits(),
                <D as BitArrayDeserializable>::len_bits(),
            ),
        }
    }

    /// The header at the front of the bits held, or the number of bits
    /// needed to tell it.
    fn peek_header(&self) -> (r: Result<Header, usize>)
        requires
            self.wf(),
        ensures
            match spec_parse_header(self.available()) {
                None => r == Err::<Header, usize>(if self.available().len() < 2 {
                    2usize
                } else {
                    3usize
                }),
                Some(h) => r == Ok::<Header, usize>(h),
            },
    {
        let ghost a = self.bit_reader.available();
        let avail = self.bit_reader.len_bits();
        if avail < 2 {
            return Err(2);
        }
        let b0 = self.bit_reader.peek::<bool>(0).unwrap();
        let b1 = self.bit_reader.peek::<bool>(1).unwrap();
        assert(a.subrange(0, 1)[0] == a[0]);
        assert(a.subrange(1, 2)[0] == a[1]);
        if b0 && !b1 {
            Ok(Header::DeltaTimestampDeltaData)
        } else if !b0 && b1 {
            Ok(Header::DeltaTimestampFullData)
        } else if !b0 && !b1 {
            Ok(Header::UnixTimeStampLog)
        } else {
            if avail < 3 {
                return Err(3);
            }
            let b2 = self.bit_reader.peek::<bool>(2).unwrap();
            assert(a.subrange(2, 3)[0] == a[2]);
            if b2 {
                Ok(Header::EndOfByte)
            } else {
                Ok(Header::FullTimestampFullData)
            }
        }
    }

    /// What reading a whole entry with header `h` from `self` does: it
    /// leaves `next` and gives `r`. An end-of-byte code is read with the rest
    /// of its byte, and gives nothing; another entry is read whole and gives
    /// what `spec_read_payload` says of its payload.
    pub open spec fn entry_read(&self, next: &Self, h: Header, r: ReadStep<TS, D, U>) -> bool {
        let a = self.available();
        if h == Header::EndOfByte {
            let skip_to = (self.bit_start() + 3 + 7) / 8 * 8;
            &&& r is TryAgain
            &&& next.bit_start() == skip_to
            &&& next.available() == a.skip(skip_to - self.bit_start())
            &&& next.last_timestamp() == self.last_timestamp()
            &&& next.last_data() == self.last_data()
        } else {
            let len = entry_len::<TS, D, U>(h);
            let (tn, dn, out) = spec_read_payload::<TS, D, U>(
                h,
                self.last_timestamp(),
                self.last_data(),
                a.subrange(header_bits(h).len() as int, len as int),
            );
            &&& next.available() == a.skip(len as int)
            &&& next.bit_start() == self.bit_start() + len
            &&& h == Header::UnixTimeStampLog ==> {
                &&& next.last_timestamp() == self.last_timestamp()
                &&& next.last_data() == self.last_data()
            }
            &&& h != Header::UnixTimeStampLog ==> {
                &&& tracks(next.last_timestamp(), tn)
                &&& tracks(next.last_data(), dn)
            }
            &&& match out {
                Some(x) => r == ReadStep::<TS, D, U>::Data(x),
                None => r is TryAgain,
            }
        }
    }

    /// Reads a whole entry whose header is `h`.
    #[verifier::rlimit(40)]
    fn read_entry(&mut self, h: Header) -> (r: ReadStep<TS, D, U>)
        requires
            old(self).wf(),
            spec_parse_header(old(self).available()) == Some(h),
            old(self).available().len() >= entry_len::<TS, D, U>(h),
        ensures
            final(self).wf(),
            old(self).entry_read(&*final(self), h, r),
    {
        let ghost a = self.bit_reader.available();
        let ghost hl = header_bits(h).len() as int;
        let _ = self.bit_reader.read::<bool>();
        let _ = self.bit_reader.read::<bool>();
        assert(self.bit_reader.available() =~= a.skip(2));
        if h == Header::EndOfByte || h == Header::FullTimestampFullData {
            let _ = self.bit_reader.read::<bool>();
            assert(self.bit_reader.available() =~= a.skip(3));
        }
        if h == Header::EndOfByte {
            let ghost s3 = self.bit_reader.start_pos();
            self.bit_reader.skip_byte();
            assert(a.skip(3).skip(((s3 + 7) / 8 * 8 - s3) as int) =~= a.skip(
                (s3 + 7) / 8 * 8 - old(self).bit_start(),
            ));
            return ReadStep::TryAgain;
        }
        let ghost len = entry_len::<TS, D, U>(h) as int;
        let r = self.read_payload(h);
        assert(a.skip(hl).take(len - hl) =~= a.subrange(hl, len));
        assert(a.skip(hl).skip(len - hl) =~= a.skip(len));
        r
    }

    /// Reads the next entry if all of its bits are held.
    ///
    /// When the bits held are too few to tell the header, or to hold the
    /// whole entry, nothing is read and the number of bits needed is given;
    /// else the entry is read as `entry_read` says.
    pub fn inner_read(&mut self) -> (r: ReadStep<TS, D, U>)
        requires
            old(self).wf(),
        ensures
            final(self).wf(),
            ({
                let a = old(self).available();
                match spec_parse_header(a) {
                    None => {
                        &&& r == ReadStep::<TS, D, U>::NeedMoreBits(if a.len() < 2 { 2 } else { 3 })
                        &&& *final(self) == *old(self)
                    },
                    Some(h) => if a.len() < entry_len::<TS, D, U>(h) {
                        &&& r == ReadStep::<TS, D, U>::NeedMoreBits(
                            clamp_usize(entry_len::<TS, D, U>(h)),
                        )
                        &&& *final(self) == *old(self)
                    } else {
                        old(self).entry_read(&*final(self), h, r)
                    },
                }
            }),
    {
        let avail = self.bit_reader.len_bits();
        let h = match self.peek_header() {
            Ok(h) => h,
            Err(n) => {
                return ReadStep::NeedMoreBits(n);
            },
        };
        let need = Self::entry_len_bits(&h);
        if avail < need {
            return ReadStep::NeedMoreBits(need);
        }
        self.read_entry(h)
    }
}

/// `a + b + c`, or `usize::MAX` when more than that.
pub(crate) fn sum_clamped(a: usize, b: usize, c: usize) -> (r: usize)
    ensures
        r == clamp_usize((a + b + c) as nat),
{
    match a.checked_add(b) {
        Some(ab) => match ab.checked_add(c) {
            Some(abc) => abc,
            None => usize::MAX,
        },
        None => usize::MAX,
    }
}

} // verus!
