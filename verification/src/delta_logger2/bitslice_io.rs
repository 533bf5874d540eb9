use vstd::prelude::*;

use crate::bits::{bits_of, max_view_bytes, splice_bits, view_copy_within};
use crate::delta_logger2::bitvec_serialize_traits::{BitRoundTrip, BitSliceWritable, FromBitSlice};

verus! {

/// Collects bits and hands them out as whole bytes.
pub struct BitSliceWriter<const N: usize> {
    len: usize,
    data: [u8; N],
}

impl<const N: usize> BitSliceWriter<N> {
    /// The underlying bytes; the bits past `bit_len` are not meaningful.
    pub closed spec fn bytes(&self) -> Seq<u8> {
        self.data@
    }

    /// Number of bits held.
    pub closed spec fn bit_len(&self) -> int {
        self.len as int
    }

    pub open spec fn wf(&self) -> bool {
        &&& N <= max_view_bytes()
        &&& self.bytes().len() == N
        &&& 0 <= self.bit_len() <= 8 * N
    }

    /// The bits held, in the order they were written.
    pub open spec fn pending(&self) -> Seq<bool> {
        bits_of(self.bytes()).take(self.bit_len())
    }

    pub fn write<V: BitSliceWritable>(&mut self, value: V)
        requires
            old(self).wf(),
            old(self).bit_len() + value.spec_bits().len() <= 8 * N,
        ensures
            final(self).wf(),
            final(self).pending() == old(self).pending() + value.spec_bits(),
            final(self).bit_len() == old(self).bit_len() + value.spec_bits().len(),
            bits_of(final(self).bytes()) == splice_bits(
                bits_of(old(self).bytes()),
                old(self).bit_len(),
                value.spec_bits(),
            ),
    {
        let ghost old_bits = bits_of(self.data@);
        let ghost vb = value.spec_bits();
        let len = value.write(&mut self.data, self.len);
        self.len += len;
        assert(bits_of(self.data@).take(self.len as int) =~= old_bits.take(
            old(self).len as int,
        ) + vb);
    }

    /// The bytes that are full, e.g. the first 2 bytes when 20 bits are held.
    pub fn view_full_byte_slice(&self) -> (r: &[u8])
        requires
            self.wf(),
        ensures
            r@ == self.bytes().take(self.bit_len() / 8),
            bits_of(r@) == self.pending().take(8 * (self.bit_len() / 8)),
    {
        let full_bytes = self.len / 8;
        let r = vstd::slice::slice_subrange(self.data.as_slice(), 0, full_bytes);
        assert(r@ =~= self.data@.take(full_bytes as int));
        assert(bits_of(r@) =~= self.pending().take(8 * (self.bit_len() / 8)));
        r
    }

    /// The bytes that hold any of the bits, the last one perhaps only in
    /// part, e.g. the first 3 bytes when 20 bits are held.
    pub fn view_all_data_slice(&self) -> (r: &[u8])
        requires
            self.wf(),
        ensures
            r@ == self.bytes().take((self.bit_len() + 7) / 8),
            bits_of(r@).take(self.bit_len() as int) == self.pending(),
    {
        let bytes = (self.len + 7) / 8;
        let r = vstd::slice::slice_subrange(self.data.as_slice(), 0, bytes);
        assert(r@ =~= self.data@.take(bytes as int));
        assert(bits_of(r@).take(self.bit_len() as int) =~= self.pending());
        r
    }

    /// Drops the full bytes and keeps the bits of the last, partial one,
    /// e.g. 4 bits are left when 20 were held.
    pub fn clear_full_byte_slice(&mut self)
        requires
            old(self).wf(),
            old(self).bit_len() < 8 * N,
        ensures
            final(self).wf(),
            final(self).bit_len() == old(self).bit_len() % 8,
            final(self).bytes() == old(self).bytes().update(
                0,
                old(self).bytes()[old(self).bit_len() / 8],
            ),
            final(self).pending() == old(self).pending().skip(8 * (old(self).bit_len() / 8)),
    {
        let full_bytes = self.len / 8;
        self.len = self.len % 8;
        let b = self.data[full_bytes];
        self.data[0] = b;
        assert forall|i: int| 0 <= i < self.len implies #[trigger] self.pending()[i] == old(
            self,
        ).pending().skip(8 * full_bytes)[i] by {
            assert((8 * full_bytes + i) / 8 == full_bytes);
            assert((8 * full_bytes + i) % 8 == i);
            assert(i / 8 == 0);
            assert(i % 8 == i);
        }
        assert(self.pending() =~= old(self).pending().skip(8 * (old(self).bit_len() / 8)));
    }

    pub fn clear(&mut self)
        ensures
            final(self).bit_len() == 0,
            final(self).bytes() == old(self).bytes(),
            final(self).pending() == Seq::<bool>::empty(),
    {
        self.len = 0;
    }
}

impl<const N: usize> Default for BitSliceWriter<N> {
    fn default() -> (r: Self)
        ensures
            N <= max_view_bytes() ==> r.wf(),
            r.bit_len() == 0,
            r.bytes() == Seq::new(N as nat, |i: int| 0u8),
            r.pending() == Seq::<bool>::empty(),
    {
        let r = Self { len: 0, data: [0u8; N] };
        assert(r.data@ =~= Seq::new(N as nat, |i: int| 0u8));
        r
    }
}

/// Bytes come in, bits go out.
pub struct BitSliceReader<const N: usize> {
    buffer: [u8; N],
    start: usize,
    end: usize,
}

impl<const N: usize> BitSliceReader<N> {
    pub closed spec fn bytes(&self) -> Seq<u8> {
        self.buffer@
    }

    /// Bit position of the next bit to read.
    pub closed spec fn start_pos(&self) -> int {
        self.start as int
    }

    /// Bit position past the last bit held.
    pub closed spec fn end(&self) -> int {
        self.end as int
    }

    pub open spec fn wf(&self) -> bool {
        &&& N <= max_view_bytes()
        &&& self.bytes().len() == N
        &&& 0 <= self.start_pos() <= self.end() <= 8 * N
        &&& self.end() % 8 == 0
    }

    /// The bits not read yet.
    pub open spec fn available(&self) -> Seq<bool> {
        bits_of(self.bytes()).subrange(self.start_pos() as int, self.end() as int)
    }

    /// Bit position, in the buffer, of the next bit to read.
    pub fn start(&self) -> (r: usize)
        ensures
            r == self.start_pos(),
    {
        self.start
    }

    /// Number of bits not read yet.
    pub fn len_bits(&self) -> (r: usize)
        requires
            self.wf(),
        ensures
            r == self.available().len(),
    {
        self.end - self.start
    }

    /// Number of whole bytes that a replenish can take in.
    pub fn free_bytes(&self) -> (r: usize)
        requires
            self.wf(),
        ensures
            r == (8 * N - self.available().len()) / 8,
    {
        (N * 8 - self.len_bits()) / 8
    }

    /// Moves the bits not read yet to the front of the buffer, so that they
    /// end on a byte boundary.
    #[verifier::rlimit(40)]
    fn move_to_front(&mut self)
        requires
            old(self).wf(),
            old(self).start_pos() < 8 * N,
        ensures
            final(self).wf(),
            final(self).available() == old(self).available(),
            final(self).start_pos() == (8 - old(self).available().len() % 8) % 8,
            final(self).end() == final(self).start_pos() + old(self).available().len(),
    {
        let len_bits = self.len_bits();
        let dest = (8 - len_bits % 8) % 8;
        view_copy_within(&mut self.buffer, self.start, self.end, dest);
        self.start = dest;
        self.end = dest + len_bits;
        assert(bits_of(self.buffer@).subrange(self.start as int, self.end as int) =~= old(
            self,
        ).available());
    }

    /// Moves the bits not read yet to the front, so that they end on a byte
    /// boundary, and appends `data` after them.
    pub fn replenish_bytes(&mut self, data: &[u8])
        requires
            old(self).wf(),
            old(self).start_pos() < 8 * N,
            data@.len() <= (8 * N - old(self).available().len()) / 8,
        ensures
            final(self).wf(),
            final(self).available() == old(self).available() + bits_of(data@),
            final(self).start_pos() == (8 - old(self).available().len() % 8) % 8,
    {
        self.move_to_front();
        self.append_bytes(data);
    }

    /// Makes room for new bytes, as a replenish does before it reads: the
    /// bits not read yet are moved to the front so that they end on a byte
    /// boundary. Returns how many bytes can then be taken in.
    pub fn prepare_replenish(&mut self) -> (r: usize)
        requires
            old(self).wf(),
        ensures
            final(self).wf(),
            final(self).available() == old(self).available(),
            final(self).start_pos() == (8 - old(self).available().len() % 8) % 8,
            final(self).end() == final(self).start_pos() + old(self).available().len(),
            r == N - final(self).end() / 8,
            r == (8 * N - old(self).available().len()) / 8,
    {
        let len_bits = self.len_bits();
        if len_bits == 0 {
            self.start = 0;
            self.end = 0;
            assert(self.available() =~= old(self).available());
        } else {
            self.move_to_front();
        }
        N - self.end / 8
    }

    /// Takes in the bytes that a read after `prepare_replenish` brought.
    pub fn commit_replenish(&mut self, data: &[u8])
        requires
            old(self).wf(),
            data@.len() <= N - old(self).end() / 8,
        ensures
            final(self).wf(),
            final(self).available() == old(self).available() + bits_of(data@),
            final(self).start_pos() == old(self).start_pos(),
            final(self).end() == old(self).end() + 8 * data@.len(),
    {
        self.append_bytes(data);
    }

    #[verifier::rlimit(40)]
    fn append_bytes(&mut self, data: &[u8])
        requires
            old(self).wf(),
            data@.len() <= N - old(self).end() / 8,
        ensures
            final(self).wf(),
            final(self).available() == old(self).available() + bits_of(data@),
            final(self).start_pos() == old(self).start_pos(),
            final(self).end() == old(self).end() + 8 * data@.len(),
    {
        let at = self.end / 8;
        let ghost old_bytes = self.buffer@;
        let mut i: usize = 0;
        while i < data.len()
            invariant
                i <= data@.len(),
                at + data@.len() <= N,
                at == old(self).end() / 8,
                self.start == old(self).start,
                self.end == old(self).end,
                self.buffer@.len() == N,
                old_bytes.len() == N,
                forall|j: int|
                    0 <= j < N ==> #[trigger] self.buffer@[j] == if at <= j < at + i {
                        data@[j - at]
                    } else {
                        old_bytes[j]
                    },
            decreases data@.len() - i,
        {
            self.buffer[at + i] = data[i];
            i = i + 1;
        }
        let ghost new_end = self.end + 8 * data@.len();
        let ghost avail = old(self).available();
        let ghost dbits = bits_of(data@);
        assert forall|k: int|
            old(self).start_pos() <= k < new_end implies #[trigger] bits_of(self.buffer@)[k] == (
            avail + dbits)[k - old(self).start_pos()] by {
            let s0 = old(self).start_pos();
            let e0 = old(self).end();
            assert(e0 == 8 * at);
            assert(k < 8 * N);
            if k < e0 {
                assert(k / 8 < at);
                assert(self.buffer@[k / 8] == old_bytes[k / 8]);
                assert((avail + dbits)[k - s0] == avail[k - s0]);
                assert(avail[k - s0] == bits_of(old_bytes)[k]);
            } else {
                let m = k - e0;
                assert(m < 8 * data@.len());
                assert(m / 8 < data@.len());
                assert(k / 8 == at + m / 8);
                assert(k % 8 == m % 8);
                assert(self.buffer@[k / 8] == data@[m / 8]);
                assert((avail + dbits)[k - s0] == dbits[m]);
            }
        }
        self.end = self.end + data.len() * 8;
        assert(self.available() =~= old(self).available() + bits_of(data@));
    }

    /// Reads a `T` from the front of the bits not read yet, or gives `None`
    /// and reads nothing when fewer bits than a `T` takes are held.
    pub fn read<T: FromBitSlice>(&mut self) -> (r: Option<T>)
        requires
            old(self).wf(),
        ensures
            final(self).wf(),
            old(self).available().len() < T::spec_len_bits() ==> {
                &&& r is None
                &&& *final(self) == *old(self)
            },
            old(self).available().len() >= T::spec_len_bits() ==> {
                &&& r == Some(
                    T::spec_from_bits(old(self).available().take(T::spec_len_bits() as int)),
                )
                &&& final(self).available() == old(self).available().skip(
                    T::spec_len_bits() as int,
                )
                &&& final(self).start_pos() == old(self).start_pos() + T::spec_len_bits()
                &&& final(self).end() == old(self).end()
            },
    {
        if self.len_bits() < T::len_bits() {
            return None;
        }
        let k = T::len_bits();
        let data = T::from_bit_slice(&self.buffer, self.start);
        assert(bits_of(self.buffer@).subrange(self.start as int, self.start + k) =~= self.available().take(
            k as int,
        ));
        self.start += k;
        assert(self.available() =~= old(self).available().skip(k as int));
        Some(data)
    }

    /// Reads a `T` from the bits not read yet that begin `skip` bits in,
    /// without consuming anything; `None` when not enough bits are held.
    pub fn peek<T: FromBitSlice>(&self, skip: usize) -> (r: Option<T>)
        requires
            self.wf(),
        ensures
            self.available().len() < skip + T::spec_len_bits() ==> r is None,
            self.available().len() >= skip + T::spec_len_bits() ==> r == Some(
                T::spec_from_bits(
                    self.available().subrange(skip as int, skip + T::spec_len_bits()),
                ),
            ),
    {
        let k = T::len_bits();
        if self.len_bits() < k || self.len_bits() - k < skip {
            return None;
        }
        let data = T::from_bit_slice(&self.buffer, self.start + skip);
        assert(bits_of(self.buffer@).subrange(self.start + skip, self.start + skip + k) =~= self.available().subrange(
            skip as int,
            skip + k,
        ));
        Some(data)
    }

    /// Skips to the next byte boundary.
    pub fn skip_byte(&mut self)
        requires
            old(self).wf(),
        ensures
            final(self).wf(),
            final(self).start_pos() == (old(self).start_pos() + 7) / 8 * 8,
            final(self).available() == old(self).available().skip(
                ((old(self).start_pos() + 7) / 8 * 8 - old(self).start_pos()) as int,
            ),
    {
        self.start = (self.start + 7) / 8 * 8;
        assert(self.available() =~= old(self).available().skip(
            ((old(self).start_pos() + 7) / 8 * 8 - old(self).start_pos()) as int,
        ));
    }
}

impl<const N: usize> Default for BitSliceReader<N> {
    fn default() -> (r: Self)
        ensures
            N <= max_view_bytes() ==> r.wf(),
            r.start_pos() == 0,
            r.end() == 0,
            r.available() == Seq::<bool>::empty(),
    {
        let r = Self { buffer: [0u8; N], start: 0, end: 0 };
        assert(r.available() =~= Seq::<bool>::empty());
        r
    }
}

/// A reader whose bits begin with the bits that `v` writes reads `v` back,
/// and what follows is left.
pub proof fn lemma_read_back<T: BitRoundTrip>(v: T, rest: Seq<bool>)
    ensures
        ({
            let s = v.spec_bits() + rest;
            &&& s.len() >= T::spec_len_bits()
            &&& T::spec_from_bits(s.take(T::spec_len_bits() as int)) == v
            &&& s.skip(T::spec_len_bits() as int) == rest
        }),
{
    T::lemma_round_trip(v);
    let s = v.spec_bits() + rest;
    assert(s.take(T::spec_len_bits() as int) =~= v.spec_bits());
    assert(s.skip(T::spec_len_bits() as int) =~= rest);
}

/// A value that deserializes, from the bits it serializes to, as itself.
pub trait BitArrayRoundTrip: BitArraySerializable + BitArrayDeserializable {
    proof fn lemma_round_trip(v: Self)
        ensures
            v.spec_serialized().len() == Self::spec_len_bits(),
            Self::spec_deserialize(v.spec_serialized()) == v,
    ;
}

/// A value that serializes itself into a `BitSliceWriter`.
pub trait BitArraySerializable {
    spec fn spec_serialized(&self) -> Seq<bool>;

    fn serialize<const N: usize>(&self, writer: &mut BitSliceWriter<N>)
        requires
            old(writer).wf(),
            old(writer).bit_len() + self.spec_serialized().len() <= 8 * N,
        ensures
            final(writer).wf(),
            final(writer).pending() == old(writer).pending() + self.spec_serialized(),
            final(writer).bit_len() == old(writer).bit_len() + self.spec_serialized().len(),
    ;
}

/// A value that deserializes itself from a fixed number of bits of a
/// `BitSliceReader`.
pub trait BitArrayDeserializable: Sized {
    spec fn spec_len_bits() -> nat;

    spec fn spec_deserialize(bits: Seq<bool>) -> Self;

    fn deserialize<const N: usize>(reader: &mut BitSliceReader<N>) -> (r: Self)
        requires
            old(reader).wf(),
            old(reader).available().len() >= Self::spec_len_bits(),
        ensures
            final(reader).wf(),
            r == Self::spec_deserialize(old(reader).available().take(Self::spec_len_bits() as int)),
            final(reader).available() == old(reader).available().skip(Self::spec_len_bits() as int),
            final(reader).start_pos() == old(reader).start_pos() + Self::spec_len_bits(),
            final(reader).end() == old(reader).end(),
    ;

    fn len_bits() -> (r: usize)
        ensures
            r == Self::spec_len_bits(),
    ;
}

/// A value that writes itself as a run of bits serializes as that run.
impl<T: BitRoundTrip + Copy> BitArraySerializable for T {
    open spec fn spec_serialized(&self) -> Seq<bool> {
        self.spec_bits()
    }

    fn serialize<const N: usize>(&self, writer: &mut BitSliceWriter<N>) {
        writer.write(*self);
    }
}

/// A value that reads itself from a run of bits deserializes from that run.
impl<T: BitRoundTrip + Copy> BitArrayDeserializable for T {
    open spec fn spec_len_bits() -> nat {
        <T as FromBitSlice>::spec_len_bits()
    }

    open spec fn spec_deserialize(bits: Seq<bool>) -> Self {
        T::spec_from_bits(bits)
    }

    fn deserialize<const N: usize>(reader: &mut BitSliceReader<N>) -> (r: Self) {
        reader.read::<T>().unwrap()
    }

    fn len_bits() -> (r: usize) {
        <T as FromBitSlice>::len_bits()
    }
}

impl<T: BitRoundTrip + Copy> BitArrayRoundTrip for T {
    proof fn lemma_round_trip(v: Self) {
        T::lemma_round_trip(v);
    }
}

} // verus!
