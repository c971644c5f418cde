//! Bits of a bitmap held in a byte sequence: bit `i` is bit `i % 8` of byte `i / 8`.
use vstd::prelude::*;

verus! {

/// Bit `i` of the bitmap `bits` is set.
pub open spec fn bit_is_set(bits: Seq<u8>, i: int) -> bool {
    bits[i / 8] & (1u8 << ((i % 8) as u8)) != 0
}

/// Every bit of `bits` is clear.
pub open spec fn all_clear(bits: Seq<u8>) -> bool {
    forall|b: int| 0 <= b < bits.len() ==> bits[b] == 0
}

/// Setting bit `s` of a byte sets that bit and keeps the others.
pub proof fn lemma_or_bit(b: u8, s: u8, t: u8)
    requires
        s < 8,
        t < 8,
    ensures
        ((b | (1u8 << s)) & (1u8 << t) != 0) <==> ((b & (1u8 << t)) != 0 || s == t),
{
    assert(((b | (1u8 << s)) & (1u8 << t) != 0) <==> ((b & (1u8 << t)) != 0 || s == t))
        by (bit_vector)
        requires
            s < 8,
            t < 8,
    ;
}

/// A zero byte has no bit set; an all-ones byte has every bit set.
pub proof fn lemma_constant_bytes(t: u8)
    requires
        t < 8,
    ensures
        0u8 & (1u8 << t) == 0,
        0xffu8 & (1u8 << t) != 0,
{
    assert(0u8 & (1u8 << t) == 0 && 0xffu8 & (1u8 << t) != 0) by (bit_vector)
        requires
            t < 8,
    ;
}

/// Two bytes with the same eight bits are equal.
pub proof fn lemma_byte_bits_eq(a: u8, b: u8)
    requires
        forall|t: u8| t < 8 ==> ((a & (1u8 << t) != 0) <==> (b & (1u8 << t) != 0)),
    ensures
        a == b,
{
    assert((a & (1u8 << 0u8) != 0) <==> (b & (1u8 << 0u8) != 0));
    assert((a & (1u8 << 1u8) != 0) <==> (b & (1u8 << 1u8) != 0));
    assert((a & (1u8 << 2u8) != 0) <==> (b & (1u8 << 2u8) != 0));
    assert((a & (1u8 << 3u8) != 0) <==> (b & (1u8 << 3u8) != 0));
    assert((a & (1u8 << 4u8) != 0) <==> (b & (1u8 << 4u8) != 0));
    assert((a & (1u8 << 5u8) != 0) <==> (b & (1u8 << 5u8) != 0));
    assert((a & (1u8 << 6u8) != 0) <==> (b & (1u8 << 6u8) != 0));
    assert((a & (1u8 << 7u8) != 0) <==> (b & (1u8 << 7u8) != 0));
    assert(a == b) by (bit_vector)
        requires
            (a & (1u8 << 0u8) != 0) <==> (b & (1u8 << 0u8) != 0),
            (a & (1u8 << 1u8) != 0) <==> (b & (1u8 << 1u8) != 0),
            (a & (1u8 << 2u8) != 0) <==> (b & (1u8 << 2u8) != 0),
            (a & (1u8 << 3u8) != 0) <==> (b & (1u8 << 3u8) != 0),
            (a & (1u8 << 4u8) != 0) <==> (b & (1u8 << 4u8) != 0),
            (a & (1u8 << 5u8) != 0) <==> (b & (1u8 << 5u8) != 0),
            (a & (1u8 << 6u8) != 0) <==> (b & (1u8 << 6u8) != 0),
            (a & (1u8 << 7u8) != 0) <==> (b & (1u8 << 7u8) != 0),
    ;
}

/// Two bitmaps of one length with the same bits are equal.
pub proof fn lemma_bits_determine_bytes(a: Seq<u8>, b: Seq<u8>)
    requires
        a.len() == b.len(),
        forall|i: int| 0 <= i < 8 * a.len() ==> (bit_is_set(a, i) <==> bit_is_set(b, i)),
    ensures
        a == b,
{
    assert forall|x: int| 0 <= x < a.len() implies a[x] == b[x] by {
        assert forall|t: u8| t < 8 implies ((a[x] & (1u8 << t) != 0) <==> (b[x] & (1u8
            << t) != 0)) by {
            let i = 8 * x + t;
            assert(i / 8 == x && i % 8 == t);
            assert(bit_is_set(a, i) <==> bit_is_set(b, i));
        }
        lemma_byte_bits_eq(a[x], b[x]);
    }
    assert(a =~= b);
}

/// Setting bit `pos` of `bits` (one byte changed) sets exactly that bit.
pub proof fn lemma_set_one_bit(old_bits: Seq<u8>, new_bits: Seq<u8>, pos: int)
    requires
        0 <= pos < 8 * old_bits.len(),
        new_bits == old_bits.update(pos / 8, old_bits[pos / 8] | (1u8 << ((pos % 8) as u8))),
    ensures
        forall|i: int|
            0 <= i < 8 * old_bits.len() ==> (bit_is_set(new_bits, i) <==> (bit_is_set(
                old_bits,
                i,
            ) || i == pos)),
{
    assert forall|i: int| 0 <= i < 8 * old_bits.len() implies (bit_is_set(new_bits, i) <==> (
    bit_is_set(old_bits, i) || i == pos)) by {
        if i / 8 == pos / 8 {
            lemma_or_bit(old_bits[pos / 8], (pos % 8) as u8, (i % 8) as u8);
            assert((i == pos) <==> (i % 8 == pos % 8));
        } else {
            assert(i != pos);
        }
    }
}

/// Reads bit `pos` of the bitmap that starts at `base` in `bytes`.
pub fn test_bit(bytes: &[u8], base: usize, pos: u64) -> (r: bool)
    requires
        base <= bytes@.len(),
        pos < 8 * (bytes@.len() - base),
    ensures
        r == bit_is_set(bytes@.subrange(base as int, bytes@.len() as int), pos as int),
{
    let n = bytes.len();
    assert(pos / 8 < n - base);
    let byte_offset = (pos / 8) as usize;
    let bit_shift = (pos % 8) as u8;
    (bytes[base + byte_offset] & (1u8 << bit_shift)) != 0
}

/// Sets bit `pos` of the bitmap that starts at `base` in `bytes`.
pub fn set_bit(bytes: &mut [u8], base: usize, pos: u64)
    requires
        base <= old(bytes)@.len(),
        pos < 8 * (old(bytes)@.len() - base),
    ensures
        final(bytes)@.len() == old(bytes)@.len(),
        final(bytes)@.subrange(0, base as int) == old(bytes)@.subrange(0, base as int),
        forall|i: int|
            0 <= i < 8 * (old(bytes)@.len() - base) ==> (bit_is_set(
                final(bytes)@.subrange(base as int, final(bytes)@.len() as int),
                i,
            ) <==> (bit_is_set(old(bytes)@.subrange(base as int, old(bytes)@.len() as int), i)
                || i == pos)),
{
    let ghost old_bits = bytes@.subrange(base as int, bytes@.len() as int);
    let n = bytes.len();
    assert(pos / 8 < n - base);
    let byte_offset = (pos / 8) as usize;
    let bit_shift = (pos % 8) as u8;
    let updated = bytes[base + byte_offset] | (1u8 << bit_shift);
    bytes[base + byte_offset] = updated;
    proof {
        let new_bits = bytes@.subrange(base as int, bytes@.len() as int);
        let p = pos as int;
        assert(new_bits =~= old_bits.update(p / 8, old_bits[p / 8] | (1u8 << ((p % 8) as u8))));
        lemma_set_one_bit(old_bits, new_bits, pos as int);
        assert(bytes@.subrange(0, base as int) =~= old(bytes)@.subrange(0, base as int));
    }
}

/// Sets every byte of `bytes` from `base` on to `value`.
pub fn fill_from(bytes: &mut [u8], base: usize, value: u8)
    requires
        base <= old(bytes)@.len(),
    ensures
        final(bytes)@.len() == old(bytes)@.len(),
        final(bytes)@.subrange(0, base as int) == old(bytes)@.subrange(0, base as int),
        forall|b: int| base <= b < final(bytes)@.len() ==> final(bytes)@[b] == value,
{
    let n = bytes.len();
    let mut i: usize = base;
    while i < n
        invariant
            base <= i <= n,
            bytes@.len() == n,
            n == old(bytes)@.len(),
            forall|b: int| 0 <= b < base ==> bytes@[b] == old(bytes)@[b],
            forall|b: int| base <= b < i ==> bytes@[b] == value,
        decreases n - i,
    {
        bytes[i] = value;
        i = i + 1;
    }
    assert(bytes@.subrange(0, base as int) =~= old(bytes)@.subrange(0, base as int));
}

/// Tells whether every byte of `bytes` from `base` on is zero.
pub fn all_zero_from(bytes: &[u8], base: usize) -> (r: bool)
    requires
        base <= bytes@.len(),
    ensures
        r == all_clear(bytes@.subrange(base as int, bytes@.len() as int)),
{
    let n = bytes.len();
    let mut i: usize = base;
    while i < n
        invariant
            base <= i <= n,
            bytes@.len() == n,
            forall|b: int| base <= b < i ==> bytes@[b] == 0,
        decreases n - i,
    {
        if bytes[i] != 0 {
            assert(bytes@.subrange(base as int, n as int)[i - base] != 0);
            return false;
        }
        i = i + 1;
    }
    true
}

} // verus!
