use vstd::prelude::*;

verus! {

/// The `n` least significant bytes of `v`, most significant first.
pub open spec fn be_bytes(v: nat, n: nat) -> Seq<u8>
    decreases n,
{
    if n == 0 {
        Seq::empty()
    } else {
        be_bytes(v / 256, (n - 1) as nat).push((v % 256) as u8)
    }
}

/// The number whose big-endian byte representation is `s`.
pub open spec fn be_value(s: Seq<u8>) -> nat
    decreases s.len(),
{
    if s.len() == 0 {
        0
    } else {
        be_value(s.drop_last()) * 256 + s.last() as nat
    }
}

/// 256 to the power `n`.
pub open spec fn byte_pow(n: nat) -> nat
    decreases n,
{
    if n == 0 {
        1
    } else {
        256 * byte_pow((n - 1) as nat)
    }
}

/// Decoding the big-endian bytes of a number that fits in `n` bytes gives the number back.
pub proof fn lemma_be_value_of_be_bytes(v: nat, n: nat)
    requires
        v < byte_pow(n),
    ensures
        be_bytes(v, n).len() == n,
        be_value(be_bytes(v, n)) == v,
    decreases n,
{
    if n > 0 {
        assert(v / 256 < byte_pow((n - 1) as nat));
        lemma_be_value_of_be_bytes(v / 256, (n - 1) as nat);
        let s = be_bytes(v, n);
        assert(s.drop_last() =~= be_bytes(v / 256, (n - 1) as nat));
    }
}

/// Encoding the value of `n` big-endian bytes gives the same bytes back.
pub proof fn lemma_be_bytes_of_be_value(s: Seq<u8>)
    ensures
        be_value(s) < byte_pow(s.len()),
        be_bytes(be_value(s), s.len()) =~= s,
    decreases s.len(),
{
    if s.len() > 0 {
        lemma_be_bytes_of_be_value(s.drop_last());
        let v = be_value(s);
        assert(v / 256 == be_value(s.drop_last()));
        assert((v % 256) as u8 == s.last());
        assert(s =~= s.drop_last().push(s.last()));
    }
}

/// Big-endian bytes of a `u16`.
pub fn u16_to_be_bytes(value: u16) -> (r: [u8; 2])
    ensures
        r@ == be_bytes(value as nat, 2),
{
    let b1 = (value % 256) as u8;
    let v1 = value / 256;
    let b0 = (v1 % 256) as u8;
    let r = [b0, b1];
    proof {
        reveal_with_fuel(be_bytes, 3);
        assert(r@ =~= be_bytes(value as nat, 2));
    }
    r
}

/// Big-endian bytes of a `u32`.
pub fn u32_to_be_bytes(value: u32) -> (r: [u8; 4])
    ensures
        r@ == be_bytes(value as nat, 4),
{
    let b3 = (value % 256) as u8;
    let v1 = value / 256;
    let b2 = (v1 % 256) as u8;
    let v2 = v1 / 256;
    let b1 = (v2 % 256) as u8;
    let v3 = v2 / 256;
    let b0 = (v3 % 256) as u8;
    let r = [b0, b1, b2, b3];
    proof {
        reveal_with_fuel(be_bytes, 5);
        assert(r@ =~= be_bytes(value as nat, 4));
    }
    r
}

/// Big-endian bytes of a `u64`.
pub fn u64_to_be_bytes(value: u64) -> (r: [u8; 8])
    ensures
        r@ == be_bytes(value as nat, 8),
{
    let b7 = (value % 256) as u8;
    let v1 = value / 256;
    let b6 = (v1 % 256) as u8;
    let v2 = v1 / 256;
    let b5 = (v2 % 256) as u8;
    let v3 = v2 / 256;
    let b4 = (v3 % 256) as u8;
    let v4 = v3 / 256;
    let b3 = (v4 % 256) as u8;
    let v5 = v4 / 256;
    let b2 = (v5 % 256) as u8;
    let v6 = v5 / 256;
    let b1 = (v6 % 256) as u8;
    let v7 = v6 / 256;
    let b0 = (v7 % 256) as u8;
    let r = [b0, b1, b2, b3, b4, b5, b6, b7];
    proof {
        reveal_with_fuel(be_bytes, 9);
        assert(r@ =~= be_bytes(value as nat, 8));
    }
    r
}

/// The `u16` whose big-endian bytes are `bytes`.
pub fn u16_from_be_bytes(bytes: [u8; 2]) -> (r: u16)
    ensures
        r == be_value(bytes@),
{
    proof {
        reveal_with_fuel(be_value, 3);
        assert(bytes@.drop_last().drop_last() =~= Seq::<u8>::empty());
    }
    (bytes[0] as u16) * 256 + bytes[1] as u16
}

/// The `u32` whose big-endian bytes are `bytes`.
pub fn u32_from_be_bytes(bytes: [u8; 4]) -> (r: u32)
    ensures
        r == be_value(bytes@),
{
    let mut r: u32 = 0;
    let mut i: usize = 0;
    while i < 4
        invariant
            i <= 4,
            r == be_value(bytes@.take(i as int)),
            r < byte_pow(i as nat),
        decreases 4 - i,
    {
        proof {
            assert(bytes@.take(i + 1).drop_last() =~= bytes@.take(i as int));
            reveal_with_fuel(byte_pow, 5);
        }
        r = r * 256 + bytes[i] as u32;
        i = i + 1;
    }
    assert(bytes@.take(4) =~= bytes@);
    r
}

/// The `u64` whose big-endian bytes are `bytes`.
pub fn u64_from_be_bytes(bytes: [u8; 8]) -> (r: u64)
    ensures
        r == be_value(bytes@),
{
    let mut r: u64 = 0;
    let mut i: usize = 0;
    while i < 8
        invariant
            i <= 8,
            r == be_value(bytes@.take(i as int)),
            r < byte_pow(i as nat),
        decreases 8 - i,
    {
        proof {
            assert(bytes@.take(i + 1).drop_last() =~= bytes@.take(i as int));
            reveal_with_fuel(byte_pow, 9);
        }
        r = r * 256 + bytes[i] as u64;
        i = i + 1;
    }
    assert(bytes@.take(8) =~= bytes@);
    r
}

/// A sink of bytes.
///
/// Each implementation says, through `appended`, what holding `prev` and then
/// taking in `data` leaves it holding, and through `accepts` and
/// `accepts_byte`, on which states a write may be made.
pub trait Writer: Sized {
    spec fn appended(prev: Self, next: Self, data: Seq<u8>) -> bool;

    spec fn accepts(&self, n: nat) -> bool;

    spec fn accepts_byte(&self) -> bool;

    fn extend_from_slice(&mut self, slice: &[u8])
        requires
            old(self).accepts(slice@.len()),
        ensures
            Self::appended(*old(self), *final(self), slice@),
    ;

    /// A writer that accepts one byte accepts a one-byte slice.
    proof fn lemma_accepts_byte(&self)
        requires
            self.accepts_byte(),
        ensures
            self.accepts(1),
    ;

    fn extend_from_u8(&mut self, value: u8)
        requires
            old(self).accepts_byte(),
        ensures
            Self::appended(*old(self), *final(self), seq![value]),
    {
        proof {
            old(self).lemma_accepts_byte();
        }
        let bytes = [value];
        assert(bytes@ =~= seq![value]);
        self.extend_from_slice(&bytes);
    }

    fn extend_from_u16(&mut self, value: u16)
        requires
            old(self).accepts(2),
        ensures
            Self::appended(*old(self), *final(self), be_bytes(value as nat, 2)),
    {
        let bytes = u16_to_be_bytes(value);
        self.extend_from_slice(&bytes);
    }

    fn extend_from_u32(&mut self, value: u32)
        requires
            old(self).accepts(4),
        ensures
            Self::appended(*old(self), *final(self), be_bytes(value as nat, 4)),
    {
        let bytes = u32_to_be_bytes(value);
        self.extend_from_slice(&bytes);
    }

    fn extend_from_u64(&mut self, value: u64)
        requires
            old(self).accepts(8),
        ensures
            Self::appended(*old(self), *final(self), be_bytes(value as nat, 8)),
    {
        let bytes = u64_to_be_bytes(value);
        self.extend_from_slice(&bytes);
    }
}

} // verus!
