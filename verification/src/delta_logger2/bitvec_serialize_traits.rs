use vstd::prelude::*;

use crate::bits::{
    bits_of, bits_value, lemma_bits_value_of_uint_bits, lemma_uint_bits_len, lemma_uint_bits_of_bits_value,
    max_view_bytes, splice_bits, uint_bits, view_get, view_load_le, view_set, view_store_le,
};

verus! {

/// A value that writes itself as a run of bits.
///
/// `spec_bits` is that run, in the order the bits are laid down.
pub trait BitSliceWritable: Sized {
    spec fn spec_bits(&self) -> Seq<bool>;

    /// Writes the bits at bit position `at` of `data` and returns how many
    /// were written.
    fn write(self, data: &mut [u8], at: usize) -> (n: usize)
        requires
            old(data)@.len() <= max_view_bytes(),
            at + self.spec_bits().len() <= 8 * old(data)@.len(),
        ensures
            n == self.spec_bits().len(),
            final(data)@.len() == old(data)@.len(),
            bits_of(final(data)@) == splice_bits(bits_of(old(data)@), at as int, self.spec_bits()),
    ;
}

/// A value that reads itself from a run of a fixed number of bits.
pub trait FromBitSlice: Sized {
    spec fn spec_len_bits() -> nat;

    spec fn spec_from_bits(bits: Seq<bool>) -> Self;

    fn len_bits() -> (r: usize)
        ensures
            r == Self::spec_len_bits(),
    ;

    /// Reads the value from the bits of `data` that begin at `from`.
    fn from_bit_slice(data: &[u8], from: usize) -> (r: Self)
        requires
            data@.len() <= max_view_bytes(),
            from + Self::spec_len_bits() <= 8 * data@.len(),
        ensures
            r == Self::spec_from_bits(
                bits_of(data@).subrange(from as int, from + Self::spec_len_bits()),
            ),
    ;
}

/// A value that reads back, from the bits it writes, as itself.
pub trait BitRoundTrip: BitSliceWritable + FromBitSlice {
    proof fn lemma_round_trip(v: Self)
        ensures
            v.spec_bits().len() == Self::spec_len_bits(),
            Self::spec_from_bits(v.spec_bits()) == v,
    ;
}

proof fn lemma_update_is_splice(s: Seq<bool>, i: int, b: bool)
    requires
        0 <= i < s.len(),
    ensures
        s.update(i, b) == splice_bits(s, i, seq![b]),
{
    assert(s.update(i, b) =~= splice_bits(s, i, seq![b]));
}

impl BitSliceWritable for bool {
    open spec fn spec_bits(&self) -> Seq<bool> {
        seq![*self]
    }

    fn write(self, data: &mut [u8], at: usize) -> (n: usize) {
        view_set(data, at, self);
        proof {
            lemma_update_is_splice(bits_of(old(data)@), at as int, self);
        }
        1
    }
}

impl FromBitSlice for bool {
    open spec fn spec_len_bits() -> nat {
        1
    }

    open spec fn spec_from_bits(bits: Seq<bool>) -> Self {
        bits[0]
    }

    fn len_bits() -> (r: usize) {
        1
    }

    fn from_bit_slice(data: &[u8], from: usize) -> (r: Self) {
        view_get(data, from)
    }
}

impl BitRoundTrip for bool {
    proof fn lemma_round_trip(v: Self) {
    }
}

impl BitSliceWritable for u8 {
    open spec fn spec_bits(&self) -> Seq<bool> {
        uint_bits(*self as nat, 8)
    }

    fn write(self, data: &mut [u8], at: usize) -> (n: usize) {
        proof {
            vstd::arithmetic::power2::lemma2_to64();
            lemma_bits_value_of_uint_bits(self as nat, 8);
        }
        view_store_le(data, at, self as u64, 8);
        8
    }
}

impl FromBitSlice for u8 {
    open spec fn spec_len_bits() -> nat {
        8
    }

    open spec fn spec_from_bits(bits: Seq<bool>) -> Self {
        bits_value(bits) as u8
    }

    fn len_bits() -> (r: usize) {
        8
    }

    fn from_bit_slice(data: &[u8], from: usize) -> (r: Self) {
        let v = view_load_le(data, from, from + 8);
        proof {
            let s = bits_of(data@).subrange(from as int, from + 8);
            lemma_uint_bits_of_bits_value(s);
            vstd::arithmetic::power2::lemma2_to64();
        }
        v as u8
    }
}

impl BitRoundTrip for u8 {
    proof fn lemma_round_trip(v: Self) {
        vstd::arithmetic::power2::lemma2_to64();
        lemma_bits_value_of_uint_bits(v as nat, 8);
    }
}

impl BitSliceWritable for u16 {
    open spec fn spec_bits(&self) -> Seq<bool> {
        uint_bits(*self as nat, 16)
    }

    fn write(self, data: &mut [u8], at: usize) -> (n: usize) {
        proof {
            vstd::arithmetic::power2::lemma2_to64();
            lemma_bits_value_of_uint_bits(self as nat, 16);
        }
        view_store_le(data, at, self as u64, 16);
        16
    }
}

impl FromBitSlice for u16 {
    open spec fn spec_len_bits() -> nat {
        16
    }

    open spec fn spec_from_bits(bits: Seq<bool>) -> Self {
        bits_value(bits) as u16
    }

    fn len_bits() -> (r: usize) {
        16
    }

    fn from_bit_slice(data: &[u8], from: usize) -> (r: Self) {
        let v = view_load_le(data, from, from + 16);
        proof {
            let s = bits_of(data@).subrange(from as int, from + 16);
            lemma_uint_bits_of_bits_value(s);
            vstd::arithmetic::power2::lemma2_to64();
        }
        v as u16
    }
}

impl BitRoundTrip for u16 {
    proof fn lemma_round_trip(v: Self) {
        vstd::arithmetic::power2::lemma2_to64();
        lemma_bits_value_of_uint_bits(v as nat, 16);
    }
}

impl BitSliceWritable for u32 {
    open spec fn spec_bits(&self) -> Seq<bool> {
        uint_bits(*self as nat, 32)
    }

    fn write(self, data: &mut [u8], at: usize) -> (n: usize) {
        proof {
            vstd::arithmetic::power2::lemma2_to64();
            lemma_bits_value_of_uint_bits(self as nat, 32);
        }
        view_store_le(data, at, self as u64, 32);
        32
    }
}

impl FromBitSlice for u32 {
    open spec fn spec_len_bits() -> nat {
        32
    }

    open spec fn spec_from_bits(bits: Seq<bool>) -> Self {
        bits_value(bits) as u32
    }

    fn len_bits() -> (r: usize) {
        32
    }

    fn from_bit_slice(data: &[u8], from: usize) -> (r: Self) {
        let v = view_load_le(data, from, from + 32);
        proof {
            let s = bits_of(data@).subrange(from as int, from + 32);
            lemma_uint_bits_of_bits_value(s);
            vstd::arithmetic::power2::lemma2_to64();
        }
        v as u32
    }
}

impl BitRoundTrip for u32 {
    proof fn lemma_round_trip(v: Self) {
        vstd::arithmetic::power2::lemma2_to64();
        lemma_bits_value_of_uint_bits(v as nat, 32);
    }
}

impl BitSliceWritable for u64 {
    open spec fn spec_bits(&self) -> Seq<bool> {
        uint_bits(*self as nat, 64)
    }

    fn write(self, data: &mut [u8], at: usize) -> (n: usize) {
        proof {
            lemma_uint_bits_len(self as nat, 64);
        }
        view_store_le(data, at, self, 64);
        64
    }
}

impl FromBitSlice for u64 {
    open spec fn spec_len_bits() -> nat {
        64
    }

    open spec fn spec_from_bits(bits: Seq<bool>) -> Self {
        bits_value(bits) as u64
    }

    fn len_bits() -> (r: usize) {
        64
    }

    fn from_bit_slice(data: &[u8], from: usize) -> (r: Self) {
        view_load_le(data, from, from + 64)
    }
}

impl BitRoundTrip for u64 {
    proof fn lemma_round_trip(v: Self) {
        vstd::arithmetic::power2::lemma2_to64();
        vstd::arithmetic::power2::lemma2_to64_rest();
        lemma_bits_value_of_uint_bits(v as nat, 64);
    }
}

impl BitSliceWritable for i64 {
    open spec fn spec_bits(&self) -> Seq<bool> {
        uint_bits((*self as u64) as nat, 64)
    }

    fn write(self, data: &mut [u8], at: usize) -> (n: usize) {
        proof {
            lemma_uint_bits_len((self as u64) as nat, 64);
        }
        view_store_le(data, at, self as u64, 64);
        64
    }
}

impl FromBitSlice for i64 {
    open spec fn spec_len_bits() -> nat {
        64
    }

    open spec fn spec_from_bits(bits: Seq<bool>) -> Self {
        (bits_value(bits) as u64) as i64
    }

    fn len_bits() -> (r: usize) {
        64
    }

    fn from_bit_slice(data: &[u8], from: usize) -> (r: Self) {
        view_load_le(data, from, from + 64) as i64
    }
}

impl BitRoundTrip for i64 {
    proof fn lemma_round_trip(v: Self) {
        vstd::arithmetic::power2::lemma2_to64();
        vstd::arithmetic::power2::lemma2_to64_rest();
        lemma_bits_value_of_uint_bits((v as u64) as nat, 64);
        assert(((v as u64) as i64) == v) by (bit_vector);
    }
}

impl<const N: usize> BitSliceWritable for [bool; N] {
    open spec fn spec_bits(&self) -> Seq<bool> {
        self@
    }

    fn write(self, data: &mut [u8], at: usize) -> (n: usize) {
        let ghost old_bits = bits_of(data@);
        let mut i: usize = 0;
        while i < N
            invariant
                i <= N,
                self@.len() == N,
                data@.len() == old(data)@.len(),
                data@.len() <= max_view_bytes(),
                at + N <= 8 * data@.len(),
                old_bits == bits_of(old(data)@),
                bits_of(data@) =~= splice_bits(old_bits, at as int, self@.take(i as int)),
            decreases N - i,
        {
            let ghost before = bits_of(data@);
            view_set(data, at + i, self[i]);
            i = i + 1;
            assert(bits_of(data@) =~= splice_bits(old_bits, at as int, self@.take(i as int)));
        }
        assert(self@.take(N as int) =~= self@);
        N
    }
}

/// Writing `t` at `at` and then `u` right after it writes `t + u` at `at`.
proof fn lemma_splice_concat(s: Seq<bool>, at: int, t: Seq<bool>, u: Seq<bool>)
    requires
        0 <= at,
        at + t.len() + u.len() <= s.len(),
    ensures
        splice_bits(splice_bits(s, at, t), at + t.len(), u) == splice_bits(s, at, t + u),
{
    assert(splice_bits(splice_bits(s, at, t), at + t.len(), u) =~= splice_bits(s, at, t + u));
}

/// Sets the bits `at .. at + n` of `data` to one.
fn fill_ones(data: &mut [u8], at: usize, n: usize)
    requires
        old(data)@.len() <= max_view_bytes(),
        at + n <= 8 * old(data)@.len(),
    ensures
        final(data)@.len() == old(data)@.len(),
        bits_of(final(data)@) == splice_bits(
            bits_of(old(data)@),
            at as int,
            Seq::new(n as nat, |k: int| true),
        ),
{
    let ghost old_bits = bits_of(data@);
    let mut i: usize = 0;
    while i < n
        invariant
            i <= n,
            data@.len() == old(data)@.len(),
            data@.len() <= max_view_bytes(),
            at + n <= 8 * data@.len(),
            old_bits == bits_of(old(data)@),
            bits_of(data@) =~= splice_bits(old_bits, at as int, Seq::new(i as nat, |k: int| true)),
        decreases n - i,
    {
        view_set(data, at + i, true);
        i = i + 1;
        assert(bits_of(data@) =~= splice_bits(
            old_bits,
            at as int,
            Seq::new(i as nat, |k: int| true),
        ));
    }
}

/// A value of at most 64 bits.
pub trait SmallBits: FromBitSlice {
    proof fn lemma_small()
        ensures
            Self::spec_len_bits() <= 64,
    ;
}

impl SmallBits for bool {
    proof fn lemma_small() {
    }
}

impl SmallBits for u8 {
    proof fn lemma_small() {
    }
}

impl SmallBits for u16 {
    proof fn lemma_small() {
    }
}

impl SmallBits for u32 {
    proof fn lemma_small() {
    }
}

impl SmallBits for u64 {
    proof fn lemma_small() {
    }
}

impl SmallBits for i64 {
    proof fn lemma_small() {
    }
}

/// A value that may be missing: a presence bit, then the value, or as many
/// ones as the value takes.
impl<T: BitRoundTrip + SmallBits> BitSliceWritable for Option<T> {
    open spec fn spec_bits(&self) -> Seq<bool> {
        match self {
            Some(v) => seq![true] + v.spec_bits(),
            None => seq![false] + Seq::new(T::spec_len_bits(), |k: int| true),
        }
    }

    fn write(self, data: &mut [u8], at: usize) -> (n: usize) {
        let ghost old_bits = bits_of(data@);
        match self {
            Some(v) => {
                proof {
                    T::lemma_round_trip(v);
                }
                view_set(data, at, true);
                proof {
                    lemma_update_is_splice(old_bits, at as int, true);
                }
                let n = v.write(data, at + 1);
                proof {
                    lemma_splice_concat(old_bits, at as int, seq![true], v.spec_bits());
                }
                n + 1
            },
            None => {
                view_set(data, at, false);
                proof {
                    lemma_update_is_splice(old_bits, at as int, false);
                }
                let len = T::len_bits();
                fill_ones(data, at + 1, len);
                proof {
                    lemma_splice_concat(
                        old_bits,
                        at as int,
                        seq![false],
                        Seq::new(len as nat, |k: int| true),
                    );
                }
                len + 1
            },
        }
    }
}

impl<T: BitRoundTrip + SmallBits> FromBitSlice for Option<T> {
    open spec fn spec_len_bits() -> nat {
        T::spec_len_bits() + 1
    }

    open spec fn spec_from_bits(bits: Seq<bool>) -> Self {
        if bits[0] {
            Some(T::spec_from_bits(bits.skip(1)))
        } else {
            None
        }
    }

    fn len_bits() -> (r: usize) {
        proof {
            T::lemma_small();
        }
        T::len_bits() + 1
    }

    fn from_bit_slice(data: &[u8], from: usize) -> (r: Self) {
        let ghost s = bits_of(data@).subrange(from as int, from + Self::spec_len_bits());
        assert(s[0] == bits_of(data@)[from as int]);
        if view_get(data, from) {
            let v = T::from_bit_slice(data, from + 1);
            assert(s.skip(1) =~= bits_of(data@).subrange(from + 1, from + 1 + T::spec_len_bits()));
            Some(v)
        } else {
            None
        }
    }
}

impl<T: BitRoundTrip + SmallBits> BitRoundTrip for Option<T> {
    proof fn lemma_round_trip(v: Self) {
        match v {
            Some(x) => {
                T::lemma_round_trip(x);
                assert((seq![true] + x.spec_bits()).skip(1) =~= x.spec_bits());
            },
            None => {},
        }
    }
}

} // verus!
