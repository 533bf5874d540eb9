use vstd::prelude::*;

use crate::io_traits::{be_value, u16_from_be_bytes, u32_from_be_bytes, u64_from_be_bytes};

verus! {

/// A program that the console starts when its id comes in over the serial
/// line.
pub trait ConsoleProgram {
    fn id(&self) -> u64;
}

/// Times writes and reads of a test file on flash.
pub struct BenchmarkFlash {}

impl BenchmarkFlash {
    pub fn new() -> (r: Self) {
        Self {}
    }

    pub fn id(&self) -> (r: u64)
        ensures
            r == 2,
    {
        0x2
    }

    /// Chunks written and read back.
    pub fn rounds(&self) -> (r: usize)
        ensures
            r == 10000,
    {
        10000
    }

    /// Bytes of each chunk.
    pub fn chunk_len(&self) -> (r: usize)
        ensures
            r == 64,
    {
        64
    }
}

/// Greets whoever is on the other end of the serial line.
pub struct Hello<T> {
    phantom: core::marker::PhantomData<T>,
}

impl<T> Hello<T> {
    pub fn new() -> (r: Self) {
        Self { phantom: core::marker::PhantomData }
    }

    pub fn name(&self) -> (r: &'static str)
        ensures
            r@ == "hello"@,
    {
        "hello"
    }

    /// What the program writes.
    pub fn greeting(&self) -> (r: &'static [u8])
        ensures
            r@ == seq![
                72u8, 101u8, 108u8, 108u8, 111u8, 44u8, 32u8, 119u8, 111u8, 114u8, 108u8, 100u8,
                33u8, 13u8, 10u8,
            ],
    {
        let r: &'static [u8] = &[72u8, 101, 108, 108, 111, 44, 32, 119, 111, 114, 108, 100, 33, 13, 10];
        r
    }
}

/// Hands out the chunks of a transfer of `total` bytes, none longer than
/// `cap`, in order.
pub struct ChunkedTransfer {
    total: u32,
    done: u32,
    cap: u32,
}

impl ChunkedTransfer {
    pub closed spec fn total(&self) -> u32 {
        self.total
    }

    /// Bytes handed out so far.
    pub closed spec fn done(&self) -> u32 {
        self.done
    }

    pub closed spec fn cap(&self) -> u32 {
        self.cap
    }

    pub open spec fn wf(&self) -> bool {
        self.done() <= self.total() && self.cap() > 0
    }

    pub fn new(total: u32, cap: u32) -> (r: Self)
        requires
            cap > 0,
        ensures
            r.wf(),
            r.total() == total,
            r.done() == 0,
            r.cap() == cap,
    {
        Self { total, done: 0, cap }
    }

    /// The length of the next chunk, the rest or `cap` when the rest is
    /// longer; `None` once every byte was handed out.
    pub fn next_chunk(&mut self) -> (r: Option<u32>)
        requires
            old(self).wf(),
        ensures
            final(self).wf(),
            final(self).total() == old(self).total(),
            final(self).cap() == old(self).cap(),
            old(self).done() == old(self).total() ==> r is None && final(self).done() == old(
                self,
            ).done(),
            old(self).done() < old(self).total() ==> {
                let rest = old(self).total() - old(self).done();
                let len = if rest < old(self).cap() {
                    rest
                } else {
                    old(self).cap() as int
                };
                &&& r == Some(len as u32)
                &&& final(self).done() == old(self).done() + len
                &&& len == spec_chunks(rest as nat, old(self).cap() as nat)[0]
                &&& spec_chunks((final(self).total() - final(self).done()) as nat, old(self).cap() as nat)
                    == spec_chunks(rest as nat, old(self).cap() as nat).skip(1)
            },
    {
        if self.done >= self.total {
            return None;
        }
        let rest = self.total - self.done;
        let len = if rest < self.cap {
            rest
        } else {
            self.cap
        };
        self.done = self.done + len;
        proof {
            let c = self.cap as nat;
            if (rest as nat) <= c {
                assert(spec_chunks(rest as nat, c).skip(1) =~= Seq::<nat>::empty());
            } else {
                assert(spec_chunks(rest as nat, c).skip(1) =~= spec_chunks((rest - c) as nat, c));
            }
        }
        Some(len)
    }
}

/// The chunk lengths of a transfer of `rest` bytes, none longer than `cap`.
pub open spec fn spec_chunks(rest: nat, cap: nat) -> Seq<nat>
    decreases rest,
{
    if rest == 0 || cap == 0 {
        Seq::empty()
    } else if rest <= cap {
        seq![rest]
    } else {
        seq![cap] + spec_chunks((rest - cap) as nat, cap)
    }
}

/// Sum of `s`.
pub open spec fn sum_nat(s: Seq<nat>) -> nat
    decreases s.len(),
{
    if s.len() == 0 {
        0
    } else {
        s[0] + sum_nat(s.skip(1))
    }
}

/// The chunks of a transfer add up to the whole, each is at most `cap`
/// long and none is empty, and there are `rest / cap` of them, rounded up.
pub proof fn lemma_chunks_cover(rest: nat, cap: nat)
    requires
        cap > 0,
    ensures
        sum_nat(spec_chunks(rest, cap)) == rest,
        forall|i: int|
            0 <= i < spec_chunks(rest, cap).len() ==> 0 < #[trigger] spec_chunks(rest, cap)[i]
                <= cap,
        spec_chunks(rest, cap).len() == (rest + cap - 1) / cap as int,
    decreases rest,
{
    if rest > cap {
        lemma_chunks_cover((rest - cap) as nat, cap);
        let tail = spec_chunks((rest - cap) as nat, cap);
        assert((seq![cap] + tail).skip(1) =~= tail);
        assert(sum_nat(seq![cap] + tail) == cap + sum_nat(tail));
        assert forall|i: int| 0 < i < (seq![cap] + tail).len() implies (seq![cap] + tail)[i]
            == tail[i - 1] by {}
        assert((rest + cap - 1) / cap as int == 1 + (rest - cap + cap - 1) / cap as int) by {
            vstd::arithmetic::div_mod::lemma_div_plus_one(
                (rest - cap + cap - 1) as int,
                cap as int,
            );
        }
    } else if rest > 0 {
        assert(seq![rest].skip(1) =~= Seq::<nat>::empty());
        assert(sum_nat(Seq::<nat>::empty()) == 0);
        assert(sum_nat(seq![rest]) == rest);
        assert((rest + cap - 1) / cap as int == 1) by {
            vstd::arithmetic::div_mod::lemma_div_plus_one((rest - 1) as int, cap as int);
            vstd::arithmetic::div_mod::lemma_basic_div((rest - 1) as int, cap as int);
        }
    } else {
        vstd::arithmetic::div_mod::lemma_basic_div((cap - 1) as int, cap as int);
    }
}

/// Streams the entries of a file, each behind its length, over the serial
/// line, one entry per request.
pub struct ReadNyoom {}

impl ReadNyoom {
    pub fn new() -> (r: Self) {
        Self {}
    }

    pub fn id(&self) -> (r: u64)
        ensures
            r == 1,
    {
        0x1
    }

    /// The file to read, from the 8 big-endian bytes of a request.
    pub fn file_id(request: &[u8; 8]) -> (r: u64)
        ensures
            r == be_value(request@),
    {
        u64_from_be_bytes(*request)
    }

    /// Bytes of the chunk buffer.
    pub fn chunk_capacity(&self) -> (r: u32)
        ensures
            r == 64,
    {
        64
    }

    /// What is sent in place of a length once the file ends.
    pub fn end_marker(&self) -> (r: [u8; 4])
        ensures
            r@ == seq![0u8, 0u8, 0u8, 0u8],
    {
        [0u8; 4]
    }
}

/// Takes a file over the serial line: its type and size, then chunks, and
/// answers with the new file's id.
pub struct WriteFile {}

impl WriteFile {
    pub fn new() -> (r: Self) {
        Self {}
    }

    pub fn id(&self) -> (r: u64)
        ensures
            r == 0,
    {
        0x0
    }

    /// The file type and size that open a transfer, from its first 6
    /// big-endian bytes.
    pub fn parse_request(request: &[u8; 6]) -> (r: (u16, u32))
        ensures
            r.0 == be_value(request@.take(2)),
            r.1 == be_value(request@.skip(2)),
    {
        let t = [request[0], request[1]];
        let s = [request[2], request[3], request[4], request[5]];
        assert(t@ =~= request@.take(2));
        assert(s@ =~= request@.skip(2));
        (u16_from_be_bytes(t), u32_from_be_bytes(s))
    }

    /// Bytes of the chunk buffer.
    pub fn chunk_capacity(&self) -> (r: u32)
        ensures
            r == 64,
    {
        64
    }
}

/// The board models a device can answer with.
#[derive(Debug, Clone, Copy, PartialEq, Eq, Structural)]
pub enum DeviceModel {
    VLF1,
    VLF2,
    VLF3,
    VLF4,
}

/// What a device says of itself.
pub struct WhoAmIResponse {
    pub name: [u8; 64],
    pub model: DeviceModel,
    pub serial_number: [u8; 12],
}

/// Tells who is on the other end of the serial line.
pub struct WhoAmI {}

impl ConsoleProgram for WhoAmI {
    fn id(&self) -> (r: u64)
        ensures
            r == 0,
    {
        0x0
    }
}

impl WhoAmI {
    pub fn new() -> (r: Self) {
        Self {}
    }

    /// The answer: the name `VLF4`, ended by a zero byte and padded with
    /// zeros, the model, and an all-zero serial number.
    pub fn response(&self) -> (r: WhoAmIResponse)
        ensures
            r.name@ == seq![86u8, 76u8, 70u8, 52u8] + Seq::new(60, |i: int| 0u8),
            r.model == DeviceModel::VLF4,
            r.serial_number@ == Seq::new(12, |i: int| 0u8),
    {
        let mut name = [0u8; 64];
        name[0] = 86;
        name[1] = 76;
        name[2] = 70;
        name[3] = 52;
        assert(name@ =~= seq![86u8, 76u8, 70u8, 52u8] + Seq::new(60, |i: int| 0u8));
        let serial_number = [0u8; 12];
        assert(serial_number@ =~= Seq::new(12, |i: int| 0u8));
        WhoAmIResponse { name, model: DeviceModel::VLF4, serial_number }
    }
}

} // verus!
