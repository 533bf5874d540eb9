use vstd::prelude::*;

use crate::checksum::Crc;
use crate::io_traits::{be_bytes, u16_to_be_bytes, u32_to_be_bytes, Writer};

verus! {

/// `bytes` with the bytes from `at` on replaced by `data`.
pub open spec fn splice(bytes: Seq<u8>, at: int, data: Seq<u8>) -> Seq<u8> {
    bytes.take(at) + data + bytes.skip(at + data.len())
}

/// A byte buffer that is filled from `start_offset` on; the bytes before
/// `start_offset` are kept free for a header that is written later.
pub struct WriteBuffer<'a, const N: usize> {
    buffer: &'a mut [u8; N],
    start_offset: usize,
    offset: usize,
}

impl<'a, const N: usize> WriteBuffer<'a, N> {
    /// The whole underlying array.
    pub closed spec fn bytes(&self) -> Seq<u8> {
        self.buffer@
    }

    /// Where the written part begins.
    pub closed spec fn start(&self) -> nat {
        self.start_offset as nat
    }

    /// Where the next byte goes.
    pub closed spec fn end(&self) -> nat {
        self.offset as nat
    }

    pub closed spec fn wf(&self) -> bool {
        self.start_offset <= self.offset
    }

    /// The bytes written since the start offset.
    pub open spec fn written(&self) -> Seq<u8> {
        self.bytes().subrange(self.start() as int, self.end() as int)
    }

    /// The underlying array holds `N` bytes.
    pub proof fn lemma_bytes_len(&self)
        ensures
            self.bytes().len() == N,
    {
    }

    pub fn new(buffer: &'a mut [u8; N], start_offset: usize) -> (r: Self)
        ensures
            r.wf(),
            r.bytes() == old(buffer)@,
            r.bytes().len() == N,
            r.start() == start_offset,
            r.end() == start_offset,
    {
        WriteBuffer { buffer, start_offset, offset: start_offset }
    }

    /// Number of bytes written since the start offset.
    pub fn len(&self) -> (r: usize)
        requires
            self.wf(),
        ensures
            r == self.end() - self.start(),
    {
        self.offset - self.start_offset
    }

    /// Number of bytes from the start offset to the end of the array.
    pub fn capacity(&self) -> (r: usize)
        requires
            self.start() <= N,
        ensures
            r == N - self.start(),
    {
        self.buffer.len() - self.start_offset
    }

    pub fn reset(&mut self)
        requires
            old(self).wf(),
        ensures
            final(self).wf(),
            final(self).bytes() == old(self).bytes(),
            final(self).start() == old(self).start(),
            final(self).end() == old(self).start(),
    {
        self.set_offset(0);
    }

    /// Moves the write position to `offset` bytes past the start offset.
    pub fn set_offset(&mut self, offset: usize)
        requires
            old(self).wf(),
            offset + old(self).start() <= usize::MAX,
        ensures
            final(self).wf(),
            final(self).bytes() == old(self).bytes(),
            final(self).start() == old(self).start(),
            final(self).end() == old(self).start() + offset,
    {
        self.offset = offset + self.start_offset;
    }

    /// Appends `slice`; a slice that does not fit is dropped whole.
    pub fn extend_from_slice(&mut self, slice: &[u8])
        requires
            old(self).wf(),
            old(self).end() + slice@.len() <= usize::MAX,
        ensures
            final(self).wf(),
            final(self).start() == old(self).start(),
            old(self).end() + slice@.len() <= N ==> {
                &&& final(self).bytes() == splice(old(self).bytes(), old(self).end() as int, slice@)
                &&& final(self).end() == old(self).end() + slice@.len()
            },
            old(self).end() + slice@.len() > N ==> {
                &&& final(self).bytes() == old(self).bytes()
                &&& final(self).end() == old(self).end()
            },
    {
        self.copy_in(slice)
    }

    fn copy_in(&mut self, slice: &[u8])
        requires
            old(self).wf(),
            old(self).end() + slice@.len() <= usize::MAX,
        ensures
            final(self).wf(),
            final(self).start() == old(self).start(),
            old(self).end() + slice@.len() <= N ==> {
                &&& final(self).bytes() == splice(old(self).bytes(), old(self).end() as int, slice@)
                &&& final(self).end() == old(self).end() + slice@.len()
            },
            old(self).end() + slice@.len() > N ==> {
                &&& final(self).bytes() == old(self).bytes()
                &&& final(self).end() == old(self).end()
            },
    {
        if self.offset + slice.len() > self.buffer.len() {
            return;
        }
        let ghost old_bytes = self.buffer@;
        let ghost at = self.offset as int;
        let mut i: usize = 0;
        while i < slice.len()
            invariant
                i <= slice@.len(),
                at + slice@.len() <= N,
                self.offset == at,
                self.start_offset == old(self).start_offset,
                self.start_offset <= self.offset,
                old_bytes.len() == N,
                self.buffer@.len() == N,
                forall|j: int|
                    0 <= j < N ==> #[trigger] self.buffer@[j] == if at <= j < at + i {
                        slice@[j - at]
                    } else {
                        old_bytes[j]
                    },
            decreases slice@.len() - i,
        {
            self.buffer[self.offset + i] = slice[i];
            i = i + 1;
        }
        assert(self.buffer@ =~= splice(old_bytes, at, slice@));
        self.offset += slice.len();
    }

    /// Writes `value` big-endian at `i` bytes past the start offset.
    pub fn replace_u16(&mut self, i: usize, value: u16)
        requires
            old(self).start() + i + 2 <= N,
        ensures
            final(self).bytes() == splice(
                old(self).bytes(),
                old(self).start() + i,
                be_bytes(value as nat, 2),
            ),
            final(self).start() == old(self).start(),
            final(self).end() == old(self).end(),
            final(self).wf() == old(self).wf(),
    {
        let bytes = u16_to_be_bytes(value);
        let at = self.start_offset + i;
        let ghost old_bytes = self.buffer@;
        self.buffer[at] = bytes[0];
        self.buffer[at + 1] = bytes[1];
        assert(self.buffer@ =~= splice(old_bytes, at as int, bytes@));
    }

    /// Writes `value` big-endian at `i` bytes past the start offset.
    pub fn replace_u32(&mut self, i: usize, value: u32)
        requires
            old(self).start() + i + 4 <= N,
        ensures
            final(self).bytes() == splice(
                old(self).bytes(),
                old(self).start() + i,
                be_bytes(value as nat, 4),
            ),
            final(self).start() == old(self).start(),
            final(self).end() == old(self).end(),
            final(self).wf() == old(self).wf(),
    {
        let bytes = u32_to_be_bytes(value);
        let at = self.start_offset + i;
        let ghost old_bytes = self.buffer@;
        self.buffer[at] = bytes[0];
        self.buffer[at + 1] = bytes[1];
        self.buffer[at + 2] = bytes[2];
        self.buffer[at + 3] = bytes[3];
        assert(self.buffer@ =~= splice(old_bytes, at as int, bytes@));
    }

    /// Pads the written part with `0xFF` up to a multiple of four bytes.
    pub fn align_4_bytes(&mut self)
        requires
            old(self).wf(),
            old(self).end() + padding_to_4(old(self).end() - old(self).start()) <= N,
        ensures
            final(self).wf(),
            final(self).start() == old(self).start(),
            final(self).end() == old(self).end() + padding_to_4(old(self).end() - old(self).start()),
            (final(self).end() - final(self).start()) % 4 == 0,
            final(self).bytes() == splice(
                old(self).bytes(),
                old(self).end() as int,
                Seq::new(padding_to_4(old(self).end() - old(self).start()), |k: int| 0xFFu8),
            ),
    {
        let ghost old_bytes = self.buffer@;
        let ghost at = self.offset as int;
        let ghost pad = padding_to_4(self.offset - self.start_offset);
        while (self.offset - self.start_offset) % 4 != 0
            invariant
                self.start_offset <= at <= self.offset <= at + pad,
                at + pad <= N,
                self.start_offset == old(self).start(),
                pad == padding_to_4(at - self.start_offset),
                (self.offset - self.start_offset) % 4 == 0 ==> self.offset == at + pad,
                old_bytes.len() == N,
                self.buffer@.len() == N,
                forall|j: int|
                    0 <= j < N ==> #[trigger] self.buffer@[j] == if at <= j < self.offset {
                        0xFFu8
                    } else {
                        old_bytes[j]
                    },
            decreases at + pad - self.offset,
        {
            self.extend_from_u8(0xFF);
        }
        assert(self.buffer@ =~= splice(
            old_bytes,
            at,
            Seq::new(pad, |k: int| 0xFFu8),
        ));
    }

    /// The checksum of the bytes written since the start offset.
    pub fn calculate_crc<C: Crc>(&self, crc: &mut C) -> (r: u32)
        requires
            self.wf(),
            self.end() <= N,
        ensures
            r == C::spec_crc(self.written()),
    {
        crc.calculate(self.as_slice_without_start())
    }

    /// The bytes written since the start offset.
    pub fn as_slice_without_start(&self) -> (r: &[u8])
        requires
            self.wf(),
            self.end() <= N,
        ensures
            r@ == self.written(),
    {
        slice_range(self.buffer, self.start_offset, self.offset)
    }

    /// The whole underlying array, header included.
    pub fn as_mut_slice(&mut self) -> (r: &mut [u8])
        ensures
            r@ == old(self).bytes(),
            final(r)@.len() == N ==> final(self).bytes() == final(r)@,
            final(self).start() == old(self).start(),
            final(self).end() == old(self).end(),
    {
        self.buffer
    }
}

impl<'a, const N: usize> Writer for WriteBuffer<'a, N> {
    open spec fn appended(prev: Self, next: Self, data: Seq<u8>) -> bool {
        &&& next.wf()
        &&& next.start() == prev.start()
        &&& if prev.end() + data.len() <= N {
            &&& next.bytes() == splice(prev.bytes(), prev.end() as int, data)
            &&& next.end() == prev.end() + data.len()
        } else {
            &&& next.bytes() == prev.bytes()
            &&& next.end() == prev.end()
        }
    }

    open spec fn accepts(&self, n: nat) -> bool {
        self.wf() && self.end() + n <= usize::MAX
    }

    open spec fn accepts_byte(&self) -> bool {
        self.wf() && self.end() < N
    }

    proof fn lemma_accepts_byte(&self) {
    }

    fn extend_from_slice(&mut self, slice: &[u8]) {
        self.copy_in(slice)
    }

    fn extend_from_u8(&mut self, value: u8) {
        let ghost old_bytes = self.buffer@;
        self.buffer[self.offset] = value;
        assert(self.buffer@ =~= splice(old_bytes, self.offset as int, seq![value]));
        self.offset += 1;
    }
}

/// Bytes of padding that bring a length of `len` to a multiple of four.
pub open spec fn padding_to_4(len: int) -> nat {
    if len % 4 == 0 {
        0
    } else {
        (4 - len % 4) as nat
    }
}

fn slice_range<const N: usize>(a: &[u8; N], from: usize, to: usize) -> (r: &[u8])
    requires
        from <= to <= N,
    ensures
        r@ == a@.subrange(from as int, to as int),
{
    let s: &[u8] = a.as_slice();
    vstd::slice::slice_subrange(s, from, to)
}

} // verus!
