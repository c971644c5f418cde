//! Deriving the bit positions of an item from its two SipHash-1-3 values.
use crate::bits::{bit_is_set, set_bit, test_bit};
use crate::header::HEADER_SIZE;
use siphasher::sip::SipHasher13;
use std::hash::{Hash, Hasher};
use vstd::prelude::*;

verus! {

/// The largest prime below 2^64; hashes beyond the first two are reduced modulo it.
pub const LARGEST_U64_PRIME: u64 = 0xFFFF_FFFF_FFFF_FFC5;

/// The `k_i`-th hash of an item whose two SipHash values are `h0` and `h1`: the first two
/// are those values, and the others are `h0 + k_i * h1` (wrapping) modulo
/// `LARGEST_U64_PRIME`.
pub open spec fn spec_bloom_hash(h0: u64, h1: u64, k_i: u32) -> u64 {
    if k_i == 0 {
        h0
    } else if k_i == 1 {
        h1
    } else {
        h0.wrapping_add((k_i as u64).wrapping_mul(h1)) % LARGEST_U64_PRIME
    }
}

/// The bit that the `k_i`-th hash selects in a bitmap of `bitmap_bits` bits.
pub open spec fn bit_position(bitmap_bits: u64, h0: u64, h1: u64, k_i: u32) -> int {
    (spec_bloom_hash(h0, h1, k_i) % bitmap_bits) as int
}

/// All `k_num` bits selected by the hash values `h0`, `h1` are set in `bits`.
pub open spec fn contains_hashes(bits: Seq<u8>, bitmap_bits: u64, k_num: u32, h0: u64, h1: u64) -> bool {
    forall|j: u32| j < k_num ==> bit_is_set(bits, #[trigger] bit_position(bitmap_bits, h0, h1, j))
}

/// Bit `i` is one of the first `n` bits selected by the hash values `h0`, `h1`.
pub open spec fn selected(bitmap_bits: u64, n: u32, h0: u64, h1: u64, i: int) -> bool {
    exists|j: u32| j < n && #[trigger] bit_position(bitmap_bits, h0, h1, j) == i
}

/// `new_bits` is `old_bits` with the `k_num` bits selected by `h0`, `h1` set as well.
pub open spec fn inserted(
    old_bits: Seq<u8>,
    new_bits: Seq<u8>,
    bitmap_bits: u64,
    k_num: u32,
    h0: u64,
    h1: u64,
) -> bool {
    &&& new_bits.len() == old_bits.len()
    &&& forall|i: int|
        0 <= i < 8 * old_bits.len() ==> (#[trigger] bit_is_set(new_bits, i) <==> (bit_is_set(
            old_bits,
            i,
        ) || selected(bitmap_bits, k_num, h0, h1, i)))
}

/// The `k_i`-th hash derived from the two SipHash values in `hashes`.
pub fn bloom_hash(hashes: &[u64; 2], k_i: u32) -> (r: u64)
    ensures
        r == spec_bloom_hash(hashes@[0], hashes@[1], k_i),
{
    if k_i < 2 {
        hashes[k_i as usize]
    } else {
        (hashes[0]).wrapping_add((k_i as u64).wrapping_mul(hashes[1])) % LARGEST_U64_PRIME
    }
}

/// Splits the 32-byte seed into the two 16-byte SipHash keys.
pub fn keys_from_seed(seed: &[u8; 32]) -> (keys: ([u8; 16], [u8; 16]))
    ensures
        keys.0@ == seed@.subrange(0, 16),
        keys.1@ == seed@.subrange(16, 32),
{
    let mut k1 = [0u8; 16];
    let mut k2 = [0u8; 16];
    let mut i: usize = 0;
    while i < 16
        invariant
            i <= 16,
            forall|j: int| 0 <= j < i ==> k1@[j] == seed@[j],
            forall|j: int| 0 <= j < i ==> k2@[j] == seed@[16 + j],
        decreases 16 - i,
    {
        k1[i] = seed[i];
        k2[i] = seed[16 + i];
        i = i + 1;
    }
    assert(k1@ =~= seed@.subrange(0, 16));
    assert(k2@ =~= seed@.subrange(16, 32));
    (k1, k2)
}

/// SipHash-1-3 under the 16-byte key `key` of the byte stream `data`.
pub uninterp spec fn siphash13(key: Seq<u8>, data: Seq<u8>) -> u64;

/// Hashes `item` with siphasher's `SipHasher13` keyed by `key`: `SipHasher13::new_with_key`,
/// then the item's own `Hash::hash` into it, then `Hasher::finish`. siphasher hashes the
/// stream of bytes written into it (integers as their native-endian bytes), so the result
/// is SipHash-1-3 under `key` of some byte stream; which stream is up to how `T` implements
/// `Hash`, which this library does not see, and is not stated.
#[verifier::external_body]
fn sip13_hash_item<T: Hash + ?Sized>(key: &[u8; 16], item: &T) -> (r: u64)
    ensures
        exists|data: Seq<u8>| r == siphash13(key@, data),
{
    let mut sip = SipHasher13::new_with_key(key);
    item.hash(&mut sip);
    sip.finish()
}

/// The two SipHash-1-3 values of `item`, under the two keys taken from `seed`: each is the
/// hash, under its key, of the bytes that the item's `Hash` impl writes.
pub fn item_hashes<T: Hash + ?Sized>(seed: &[u8; 32], item: &T) -> (r: [u64; 2])
    ensures
        exists|d0: Seq<u8>, d1: Seq<u8>|
            r@[0] == siphash13(seed@.subrange(0, 16), d0) && r@[1] == siphash13(
                seed@.subrange(16, 32),
                d1,
            ),
{
    let (k1, k2) = keys_from_seed(seed);
    let h0 = sip13_hash_item(&k1, item);
    let h1 = sip13_hash_item(&k2, item);
    let r = [h0, h1];
    proof {
        let d0 = choose|d: Seq<u8>| h0 == siphash13(k1@, d);
        let d1 = choose|d: Seq<u8>| h1 == siphash13(k2@, d);
        assert(r@[0] == siphash13(seed@.subrange(0, 16), d0));
        assert(r@[1] == siphash13(seed@.subrange(16, 32), d1));
    }
    r
}

/// Tells whether the `k_num` bits that `hashes` select are all set in the bitmap of the
/// serialized filter `bytes`; the bitmap follows the header, and its first `bitmap_bits`
/// bits are the ones used.
pub fn check(bytes: &[u8], bitmap_bits: u64, k_num: u32, hashes: &[u64; 2]) -> (r: bool)
    requires
        bytes@.len() >= HEADER_SIZE,
        bitmap_bits <= 8 * (bytes@.len() - HEADER_SIZE),
        bitmap_bits > 0,
    ensures
        r == contains_hashes(
            bytes@.subrange(HEADER_SIZE as int, bytes@.len() as int),
            bitmap_bits,
            k_num,
            hashes@[0],
            hashes@[1],
        ),
{
    let ghost bits = bytes@.subrange(HEADER_SIZE as int, bytes@.len() as int);
    let mut k_i: u32 = 0;
    while k_i < k_num
        invariant
            bytes@.len() >= HEADER_SIZE,
            bitmap_bits <= 8 * (bytes@.len() - HEADER_SIZE),
            bitmap_bits > 0,
            bits == bytes@.subrange(HEADER_SIZE as int, bytes@.len() as int),
            k_i <= k_num,
            forall|j: u32|
                j < k_i ==> bit_is_set(
                    bits,
                    #[trigger] bit_position(bitmap_bits, hashes@[0], hashes@[1], j),
                ),
        decreases k_num - k_i,
    {
        let bit_offset = bloom_hash(hashes, k_i) % bitmap_bits;
        if !test_bit(bytes, HEADER_SIZE, bit_offset) {
            assert(bit_position(bitmap_bits, hashes@[0], hashes@[1], k_i) == bit_offset);
            return false;
        }
        k_i = k_i + 1;
    }
    true
}

/// Bit `i` is selected among the first `n + 1` positions exactly when it is selected among
/// the first `n` or is position `n`.
pub proof fn lemma_selected_step(bitmap_bits: u64, n: u32, h0: u64, h1: u64, i: int)
    requires
        n < u32::MAX,
    ensures
        selected(bitmap_bits, (n + 1) as u32, h0, h1, i) <==> (selected(bitmap_bits, n, h0, h1, i)
            || bit_position(bitmap_bits, h0, h1, n) == i),
{
    if selected(bitmap_bits, (n + 1) as u32, h0, h1, i) {
        let j = choose|j: u32| j < n + 1 && #[trigger] bit_position(bitmap_bits, h0, h1, j) == i;
        if j < n {
            assert(selected(bitmap_bits, n, h0, h1, i));
        }
    }
    if selected(bitmap_bits, n, h0, h1, i) {
        let j = choose|j: u32| j < n && #[trigger] bit_position(bitmap_bits, h0, h1, j) == i;
        assert(j < n + 1 && bit_position(bitmap_bits, h0, h1, j) == i);
    }
    if bit_position(bitmap_bits, h0, h1, n) == i {
        assert(n < n + 1 && bit_position(bitmap_bits, h0, h1, n) == i);
    }
}

/// Sets the `k_num` bits that `hashes` select in the bitmap of the serialized filter
/// `bytes`; the header is left as it is.
pub fn set_positions(bytes: &mut [u8], bitmap_bits: u64, k_num: u32, hashes: &[u64; 2])
    requires
        old(bytes)@.len() >= HEADER_SIZE,
        bitmap_bits == 8 * (old(bytes)@.len() - HEADER_SIZE),
        bitmap_bits > 0,
    ensures
        final(bytes)@.len() == old(bytes)@.len(),
        final(bytes)@.subrange(0, HEADER_SIZE as int) == old(bytes)@.subrange(0, HEADER_SIZE as int),
        inserted(
            old(bytes)@.subrange(HEADER_SIZE as int, old(bytes)@.len() as int),
            final(bytes)@.subrange(HEADER_SIZE as int, final(bytes)@.len() as int),
            bitmap_bits,
            k_num,
            hashes@[0],
            hashes@[1],
        ),
{
    let ghost h0 = hashes@[0];
    let ghost h1 = hashes@[1];
    let ghost old_bits = bytes@.subrange(HEADER_SIZE as int, bytes@.len() as int);
    let ghost len = bytes@.len();
    let mut k_i: u32 = 0;
    while k_i < k_num
        invariant
            bytes@.len() == len,
            len >= HEADER_SIZE,
            bitmap_bits == 8 * (len - HEADER_SIZE),
            bitmap_bits > 0,
            old_bits == old(bytes)@.subrange(HEADER_SIZE as int, len as int),
            h0 == hashes@[0],
            h1 == hashes@[1],
            k_i <= k_num,
            bytes@.subrange(0, HEADER_SIZE as int) == old(bytes)@.subrange(0, HEADER_SIZE as int),
            forall|i: int|
                0 <= i < bitmap_bits ==> (#[trigger] bit_is_set(
                    bytes@.subrange(HEADER_SIZE as int, len as int),
                    i,
                ) <==> (bit_is_set(old_bits, i) || selected(bitmap_bits, k_i, h0, h1, i))),
        decreases k_num - k_i,
    {
        let ghost before = bytes@.subrange(HEADER_SIZE as int, len as int);
        let bit_offset = bloom_hash(hashes, k_i) % bitmap_bits;
        set_bit(bytes, HEADER_SIZE, bit_offset);
        proof {
            assert(bytes@.subrange(0, HEADER_SIZE as int) =~= old(bytes)@.subrange(0, HEADER_SIZE as int));
            assert forall|i: int| 0 <= i < bitmap_bits implies (#[trigger] bit_is_set(
                bytes@.subrange(HEADER_SIZE as int, len as int),
                i,
            ) <==> (bit_is_set(old_bits, i) || selected(bitmap_bits, (k_i + 1) as u32, h0, h1, i))) by {
                lemma_selected_step(bitmap_bits, k_i, h0, h1, i);
                assert(bit_is_set(before, i) <==> (bit_is_set(old_bits, i) || selected(bitmap_bits, k_i, h0, h1, i)));
            }
        }
        k_i = k_i + 1;
    }
}

/// Sets the `k_num` bits that `hashes` select, and tells whether they were all set before.
pub fn check_and_set_positions(bytes: &mut [u8], bitmap_bits: u64, k_num: u32, hashes: &[u64; 2]) -> (found: bool)
    requires
        old(bytes)@.len() >= HEADER_SIZE,
        bitmap_bits == 8 * (old(bytes)@.len() - HEADER_SIZE),
        bitmap_bits > 0,
    ensures
        found == contains_hashes(
            old(bytes)@.subrange(HEADER_SIZE as int, old(bytes)@.len() as int),
            bitmap_bits,
            k_num,
            hashes@[0],
            hashes@[1],
        ),
        final(bytes)@.len() == old(bytes)@.len(),
        final(bytes)@.subrange(0, HEADER_SIZE as int) == old(bytes)@.subrange(0, HEADER_SIZE as int),
        inserted(
            old(bytes)@.subrange(HEADER_SIZE as int, old(bytes)@.len() as int),
            final(bytes)@.subrange(HEADER_SIZE as int, final(bytes)@.len() as int),
            bitmap_bits,
            k_num,
            hashes@[0],
            hashes@[1],
        ),
{
    let ghost h0 = hashes@[0];
    let ghost h1 = hashes@[1];
    let ghost old_bits = bytes@.subrange(HEADER_SIZE as int, bytes@.len() as int);
    let ghost len = bytes@.len();
    let mut found = true;
    let mut k_i: u32 = 0;
    while k_i < k_num
        invariant
            bytes@.len() == len,
            len >= HEADER_SIZE,
            bitmap_bits == 8 * (len - HEADER_SIZE),
            bitmap_bits > 0,
            old_bits == old(bytes)@.subrange(HEADER_SIZE as int, len as int),
            h0 == hashes@[0],
            h1 == hashes@[1],
            k_i <= k_num,
            bytes@.subrange(0, HEADER_SIZE as int) == old(bytes)@.subrange(0, HEADER_SIZE as int),
            forall|i: int|
                0 <= i < bitmap_bits ==> (#[trigger] bit_is_set(
                    bytes@.subrange(HEADER_SIZE as int, len as int),
                    i,
                ) <==> (bit_is_set(old_bits, i) || selected(bitmap_bits, k_i, h0, h1, i))),
            found == (forall|j: u32| j < k_i ==> bit_is_set(old_bits, #[trigger] bit_position(bitmap_bits, h0, h1, j))),
        decreases k_num - k_i,
    {
        let ghost before = bytes@.subrange(HEADER_SIZE as int, len as int);
        let ghost found_before = found;
        let bit_offset = bloom_hash(hashes, k_i) % bitmap_bits;
        let ghost p = bit_offset as int;
        assert(bit_position(bitmap_bits, h0, h1, k_i) == p);
        if !test_bit(bytes, HEADER_SIZE, bit_offset) {
            found = false;
            set_bit(bytes, HEADER_SIZE, bit_offset);
        }
        proof {
            assert(bytes@.subrange(0, HEADER_SIZE as int) =~= old(bytes)@.subrange(0, HEADER_SIZE as int));
            assert forall|i: int| 0 <= i < bitmap_bits implies (#[trigger] bit_is_set(
                bytes@.subrange(HEADER_SIZE as int, len as int),
                i,
            ) <==> (bit_is_set(old_bits, i) || selected(bitmap_bits, (k_i + 1) as u32, h0, h1, i))) by {
                lemma_selected_step(bitmap_bits, k_i, h0, h1, i);
                assert(bit_is_set(before, i) <==> (bit_is_set(old_bits, i) || selected(bitmap_bits, k_i, h0, h1, i)));
            }
            if found_before {
                if selected(bitmap_bits, k_i, h0, h1, p) {
                    let j = choose|j: u32| j < k_i && #[trigger] bit_position(bitmap_bits, h0, h1, j) == p;
                    assert(bit_is_set(old_bits, bit_position(bitmap_bits, h0, h1, j)));
                }
                assert(bit_is_set(before, p) == bit_is_set(old_bits, p));
            }
            assert(found == (forall|j: u32| j < k_i + 1 ==> bit_is_set(old_bits, #[trigger] bit_position(bitmap_bits, h0, h1, j)))) by {
                if !found {
                    if found_before {
                        assert(!bit_is_set(old_bits, bit_position(bitmap_bits, h0, h1, k_i)));
                    } else {
                        let j = choose|j: u32| !(j < k_i ==> bit_is_set(old_bits, #[trigger] bit_position(bitmap_bits, h0, h1, j)));
                        assert(j < k_i + 1 && !bit_is_set(old_bits, bit_position(bitmap_bits, h0, h1, j)));
                    }
                }
            }
        }
        k_i = k_i + 1;
    }
    found
}

} // verus!
