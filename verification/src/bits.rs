use vstd::prelude::*;

use bitvec::field::BitField;
use bitvec::order::Lsb0;
use bitvec::view::BitView;
use vstd::arithmetic::power2::pow2;

verus! {

/// Bit `k` (0 is the least significant) of the byte `b`.
pub open spec fn bit_of_byte(b: u8, k: int) -> bool {
    (b as int / pow2(k as nat) as int) % 2 == 1
}

/// The bits of `bytes` in `Lsb0` order: bit `8 * j + k` is bit `k` of byte `j`.
pub open spec fn bits_of(bytes: Seq<u8>) -> Seq<bool> {
    Seq::new(8 * bytes.len(), |i: int| bit_of_byte(bytes[i / 8], i % 8))
}

/// `s` with the bits from `at` on replaced by `t`.
pub open spec fn splice_bits(s: Seq<bool>, at: int, t: Seq<bool>) -> Seq<bool> {
    s.take(at) + t + s.skip(at + t.len())
}

/// The `n` least significant bits of `v`, least significant first.
pub open spec fn uint_bits(v: nat, n: nat) -> Seq<bool>
    decreases n,
{
    if n == 0 {
        Seq::empty()
    } else {
        seq![v % 2 == 1] + uint_bits(v / 2, (n - 1) as nat)
    }
}

/// The number whose bits, least significant first, are `s`.
pub open spec fn bits_value(s: Seq<bool>) -> nat
    decreases s.len(),
{
    if s.len() == 0 {
        0
    } else {
        (if s[0] {
            1nat
        } else {
            0nat
        }) + 2 * bits_value(s.drop_first())
    }
}

/// Byte strings longer than this cannot be viewed as bit slices.
pub open spec fn max_view_bytes() -> nat {
    (usize::MAX / 64) as nat
}

/// Whether an array of `n` bytes can be viewed as bits.
pub fn fits_bit_view(n: usize) -> (r: bool)
    ensures
        r == (n <= max_view_bytes()),
{
    n <= usize::MAX / 64
}

pub proof fn lemma_uint_bits_len(v: nat, n: nat)
    ensures
        uint_bits(v, n).len() == n,
    decreases n,
{
    if n > 0 {
        lemma_uint_bits_len(v / 2, (n - 1) as nat);
    }
}

/// Reading back the `n` bits of a number below `2^n` gives the number.
pub proof fn lemma_bits_value_of_uint_bits(v: nat, n: nat)
    requires
        v < pow2(n),
    ensures
        uint_bits(v, n).len() == n,
        bits_value(uint_bits(v, n)) == v,
    decreases n,
{
    if n > 0 {
        vstd::arithmetic::power2::lemma_pow2_unfold(n);
        assert(v / 2 < pow2((n - 1) as nat));
        lemma_bits_value_of_uint_bits(v / 2, (n - 1) as nat);
        let s = uint_bits(v, n);
        assert(s.drop_first() =~= uint_bits(v / 2, (n - 1) as nat));
    } else {
        vstd::arithmetic::power2::lemma2_to64();
    }
}

/// Any bit string is the bits of its value.
pub proof fn lemma_uint_bits_of_bits_value(s: Seq<bool>)
    ensures
        bits_value(s) < pow2(s.len()),
        uint_bits(bits_value(s), s.len()) =~= s,
    decreases s.len(),
{
    if s.len() == 0 {
        vstd::arithmetic::power2::lemma2_to64();
    } else {
        lemma_uint_bits_of_bits_value(s.drop_first());
        vstd::arithmetic::power2::lemma_pow2_unfold(s.len());
        let v = bits_value(s);
        assert(v / 2 == bits_value(s.drop_first()));
        assert((v % 2 == 1) == s[0]);
        assert(s =~= seq![s[0]] + s.drop_first());
    }
}

/// `bitvec`'s `BitSlice::copy_within` on the `Lsb0` bit view of `data`:
/// the bits `from .. to` are copied to `dest ..`, overlapping or not.
/// `copy_within` panics unless `from` and `dest` are below the bit length and
/// both ranges end within it.
#[verifier::external_body]
pub(crate) fn view_copy_within(data: &mut [u8], from: usize, to: usize, dest: usize)
    requires
        old(data)@.len() <= max_view_bytes(),
        from <= to,
        from < 8 * old(data)@.len(),
        to <= 8 * old(data)@.len(),
        dest < 8 * old(data)@.len(),
        dest + (to - from) <= 8 * old(data)@.len(),
    ensures
        final(data)@.len() == old(data)@.len(),
        bits_of(final(data)@) == splice_bits(
            bits_of(old(data)@),
            dest as int,
            bits_of(old(data)@).subrange(from as int, to as int),
        ),
{
    data.view_bits_mut::<Lsb0>().copy_within(from..to, dest);
}

/// `bitvec`'s `BitField::load_le::<u64>` on the `Lsb0` bit view of `data`,
/// bits `from .. to`: the bit at `from + k` is bit `k` of the result. It
/// panics unless between 1 and 64 bits are loaded.
#[verifier::external_body]
pub(crate) fn view_load_le(data: &[u8], from: usize, to: usize) -> (r: u64)
    requires
        data@.len() <= max_view_bytes(),
        from < to,
        to - from <= 64,
        to <= 8 * data@.len(),
    ensures
        r == bits_value(bits_of(data@).subrange(from as int, to as int)),
{
    data.view_bits::<Lsb0>()[from..to].load_le::<u64>()
}

/// `bitvec`'s `BitSlice::copy_from_bitslice` on the `Lsb0` bit view of
/// `data`, bits `at .. at + n`, from the first `n` bits of the `Lsb0` view of
/// the little-endian bytes of `value`: the low `n` bits of `value` land at
/// `at`, least significant first.
#[verifier::external_body]
pub(crate) fn view_store_le(data: &mut [u8], at: usize, value: u64, n: usize)
    requires
        old(data)@.len() <= max_view_bytes(),
        n <= 64,
        at + n <= 8 * old(data)@.len(),
    ensures
        final(data)@.len() == old(data)@.len(),
        bits_of(final(data)@) == splice_bits(bits_of(old(data)@), at as int, uint_bits(value as nat, n as nat)),
{
    let bytes = value.to_le_bytes();
    data.view_bits_mut::<Lsb0>()[at..at + n].copy_from_bitslice(&bytes.view_bits::<Lsb0>()[..n]);
}

/// `bitvec`'s `BitSlice::set` on the `Lsb0` bit view of `data`.
#[verifier::external_body]
pub(crate) fn view_set(data: &mut [u8], i: usize, value: bool)
    requires
        old(data)@.len() <= max_view_bytes(),
        i < 8 * old(data)@.len(),
    ensures
        final(data)@.len() == old(data)@.len(),
        bits_of(final(data)@) == bits_of(old(data)@).update(i as int, value),
{
    data.view_bits_mut::<Lsb0>().set(i, value);
}

/// Indexing the `Lsb0` bit view of `data`.
#[verifier::external_body]
pub(crate) fn view_get(data: &[u8], i: usize) -> (r: bool)
    requires
        data@.len() <= max_view_bytes(),
        i < 8 * data@.len(),
    ensures
        r == bits_of(data@)[i as int],
{
    data.view_bits::<Lsb0>()[i]
}


} // verus!
