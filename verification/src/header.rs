//! The serialized layout of a filter: a fixed-size header followed by the bitmap.
//!
//! Header layout (`HEADER_SIZE` bytes):
//! - byte 0: format version (`VERSION`)
//! - bytes 1..9: length of the bitmap in bytes, little-endian `u64`
//! - bytes 9..13: number of hash functions, little-endian `u32`
//! - bytes 13..45: the 32-byte seed of the hash functions
use vstd::bytes::{
    spec_u32_from_le_bytes, spec_u32_to_le_bytes, spec_u64_from_le_bytes, spec_u64_to_le_bytes,
    u32_from_le_bytes, u32_to_le_bytes, u64_from_le_bytes, u64_to_le_bytes,
};
use vstd::prelude::*;
use vstd::slice::slice_subrange;

verus! {

/// Format version written in, and expected at, the first byte of the header.
pub const VERSION: u8 = 1;

/// Size in bytes of the header that precedes the bitmap.
pub const HEADER_SIZE: usize = 1 + 8 + 4 + 32;

/// Offset of the bitmap length field.
pub const LEN_BYTES_OFFSET: usize = 1;

/// Offset of the hash count field.
pub const K_NUM_OFFSET: usize = 9;

/// Offset of the seed field.
pub const SEED_OFFSET: usize = 13;

/// The header that describes a bitmap of `len_bytes` bytes, `k_num` hash functions and `seed`.
pub open spec fn spec_header(len_bytes: u64, k_num: u32, seed: Seq<u8>) -> Seq<u8> {
    seq![VERSION] + spec_u64_to_le_bytes(len_bytes) + spec_u32_to_le_bytes(k_num) + seed
}

/// The bitmap length recorded in the header of `b`.
pub open spec fn stored_len_bytes(b: Seq<u8>) -> u64 {
    spec_u64_from_le_bytes(b.subrange(1, 9))
}

/// The hash count recorded in the header of `b`.
pub open spec fn stored_k_num(b: Seq<u8>) -> u32 {
    spec_u32_from_le_bytes(b.subrange(9, 13))
}

/// The seed recorded in the header of `b`.
pub open spec fn stored_seed(b: Seq<u8>) -> Seq<u8> {
    b.subrange(13, 45)
}

/// The bitmap of a serialized filter `b` (all bytes after the header).
pub open spec fn stored_bits(b: Seq<u8>) -> Seq<u8> {
    b.subrange(HEADER_SIZE as int, b.len() as int)
}

/// The number of bits of the bitmap of `b` fits in a `u64`.
pub open spec fn bitmap_size_fits(b: Seq<u8>) -> bool {
    b.len() <= HEADER_SIZE + u64::MAX / 8
}

/// What `parse_header` gives for the serialized filter `b`: the number of bits of the
/// bitmap, the hash count and the seed, or the message of the first check that fails.
pub open spec fn spec_parse_header(b: Seq<u8>) -> Result<(u64, u32, Seq<u8>), Seq<char>> {
    if b.len() < HEADER_SIZE {
        Err("Invalid size"@)
    } else if b[0] != VERSION {
        Err("Version mismatch"@)
    } else if stored_k_num(b) == 0 {
        Err("Invalid number of keys"@)
    } else if stored_len_bytes(b) > usize::MAX {
        Err("Too big"@)
    } else if b.len() - HEADER_SIZE != stored_len_bytes(b) {
        Err("Invalid size"@)
    } else {
        Ok((((b.len() - HEADER_SIZE) * 8) as u64, stored_k_num(b), stored_seed(b)))
    }
}

/// What `parse` gives for `b`: as `spec_parse_header`, and an empty bitmap is refused.
pub open spec fn spec_parse(b: Seq<u8>) -> Result<(u64, u32, Seq<u8>), Seq<char>> {
    match spec_parse_header(b) {
        Ok((bits, k, seed)) => if bits == 0 {
            Err("Bitmap cannot be empty"@)
        } else {
            Ok((bits, k, seed))
        },
        Err(e) => Err(e),
    }
}

/// Bytes that load as a filter load as a read-only filter with the same parameters.
pub proof fn lemma_parse_implies_parse_header(b: Seq<u8>)
    requires
        spec_parse(b) is Ok,
    ensures
        spec_parse_header(b) == spec_parse(b),
{
}

/// What parsing gives depends only on the length and on the header.
pub proof fn lemma_parse_depends_on_header(a: Seq<u8>, b: Seq<u8>)
    requires
        a.len() == b.len(),
        a.len() >= HEADER_SIZE,
        a.subrange(0, HEADER_SIZE as int) == b.subrange(0, HEADER_SIZE as int),
    ensures
        spec_parse_header(a) == spec_parse_header(b),
        spec_parse(a) == spec_parse(b),
{
    assert(a[0] == a.subrange(0, HEADER_SIZE as int)[0]);
    assert(b[0] == b.subrange(0, HEADER_SIZE as int)[0]);
    assert(a.subrange(1, 9) =~= a.subrange(0, HEADER_SIZE as int).subrange(1, 9));
    assert(b.subrange(1, 9) =~= b.subrange(0, HEADER_SIZE as int).subrange(1, 9));
    assert(a.subrange(9, 13) =~= a.subrange(0, HEADER_SIZE as int).subrange(9, 13));
    assert(b.subrange(9, 13) =~= b.subrange(0, HEADER_SIZE as int).subrange(9, 13));
    assert(a.subrange(13, 45) =~= a.subrange(0, HEADER_SIZE as int).subrange(13, 45));
    assert(b.subrange(13, 45) =~= b.subrange(0, HEADER_SIZE as int).subrange(13, 45));
}

/// Copies `src` into `dst` starting at `at`.
fn write_at(dst: &mut [u8], at: usize, src: &[u8])
    requires
        at + src@.len() <= old(dst)@.len(),
    ensures
        final(dst)@ == old(dst)@.subrange(0, at as int) + src@ + old(dst)@.subrange(
            at + src@.len(),
            old(dst)@.len() as int,
        ),
{
    let ghost d0 = dst@;
    let n = dst.len();
    let mut i: usize = 0;
    while i < src.len()
        invariant
            at + src@.len() <= d0.len(),
            i <= src@.len(),
            dst@.len() == d0.len(),
            d0.len() == n,
            forall|j: int| 0 <= j < at ==> dst@[j] == d0[j],
            forall|j: int| 0 <= j < i ==> dst@[at + j] == src@[j],
            forall|j: int| at + i <= j < d0.len() ==> dst@[j] == d0[j],
        decreases src@.len() - i,
    {
        dst[at + i] = src[i];
        i = i + 1;
    }
    assert(dst@ =~= d0.subrange(0, at as int) + src@ + d0.subrange(at + src@.len(), d0.len() as int));
}

/// Writes the format version into the header.
pub fn set_version(header: &mut [u8], version: u8)
    requires
        old(header)@.len() >= 1,
    ensures
        final(header)@ == old(header)@.update(0, version),
{
    header[0] = version;
}

/// Reads the format version from the header.
pub fn get_version(header: &[u8]) -> (version: u8)
    requires
        header@.len() >= 1,
    ensures
        version == header@[0],
{
    header[0]
}

/// Writes the bitmap length (in bytes) into the header, little-endian.
pub fn set_len_bytes(header: &mut [u8], len_bytes: u64)
    requires
        old(header)@.len() >= 9,
    ensures
        final(header)@ == old(header)@.subrange(0, 1) + spec_u64_to_le_bytes(len_bytes)
            + old(header)@.subrange(9, old(header)@.len() as int),
        final(header)@.len() == old(header)@.len(),
        stored_len_bytes(final(header)@) == len_bytes,
{
    let le = u64_to_le_bytes(len_bytes);
    write_at(header, LEN_BYTES_OFFSET, le.as_slice());
    proof {
        vstd::bytes::lemma_auto_spec_u64_to_from_le_bytes();
        assert(header@.subrange(1, 9) =~= spec_u64_to_le_bytes(len_bytes));
    }
}

/// Writes the hash count into the header, little-endian.
pub fn set_k_num(header: &mut [u8], k_num: u32)
    requires
        old(header)@.len() >= 13,
    ensures
        final(header)@ == old(header)@.subrange(0, 9) + spec_u32_to_le_bytes(k_num)
            + old(header)@.subrange(13, old(header)@.len() as int),
        final(header)@.len() == old(header)@.len(),
        stored_k_num(final(header)@) == k_num,
{
    let le = u32_to_le_bytes(k_num);
    write_at(header, K_NUM_OFFSET, le.as_slice());
    proof {
        vstd::bytes::lemma_auto_spec_u32_to_from_le_bytes();
        assert(header@.subrange(9, 13) =~= spec_u32_to_le_bytes(k_num));
    }
}

/// Writes the 32-byte seed into the header.
pub fn set_seed(header: &mut [u8], seed: &[u8; 32])
    requires
        old(header)@.len() >= 45,
    ensures
        final(header)@ == old(header)@.subrange(0, 13) + seed@ + old(header)@.subrange(
            45,
            old(header)@.len() as int,
        ),
        final(header)@.len() == old(header)@.len(),
        stored_seed(final(header)@) == seed@,
{
    write_at(header, SEED_OFFSET, seed.as_slice());
    assert(header@.subrange(13, 45) =~= seed@);
}

/// Validates a serialized filter and returns the number of bits of its bitmap, its hash
/// count and its seed. Unlike `parse`, an empty bitmap is accepted.
pub fn parse_header(bytes: &[u8]) -> (r: Result<(u64, u32, [u8; 32]), &'static str>)
    requires
        bitmap_size_fits(bytes@),
    ensures
        match r {
            Ok((bits, k, seed)) => spec_parse_header(bytes@) == Ok::<_, Seq<char>>((bits, k, seed@)),
            Err(e) => spec_parse_header(bytes@) == Err::<(u64, u32, Seq<u8>), _>(e@),
        },
{
    if bytes.len() < HEADER_SIZE {
        return Err("Invalid size");
    }
    if bytes[0] != VERSION {
        return Err("Version mismatch");
    }
    let k_num = u32_from_le_bytes(slice_subrange(bytes, 9, 13));
    if k_num == 0 {
        return Err("Invalid number of keys");
    }
    let len_bytes_u64 = u64_from_le_bytes(slice_subrange(bytes, 1, 9));
    if len_bytes_u64 > usize::MAX as u64 {
        return Err("Too big");
    }
    let len_bytes = len_bytes_u64 as usize;
    if bytes.len() - HEADER_SIZE != len_bytes {
        return Err("Invalid size");
    }
    let mut seed = [0u8; 32];
    let mut i: usize = 0;
    while i < 32
        invariant
            bytes@.len() >= HEADER_SIZE,
            i <= 32,
            forall|j: int| 0 <= j < i ==> seed@[j] == bytes@[13 + j],
        decreases 32 - i,
    {
        seed[i] = bytes[SEED_OFFSET + i];
        i = i + 1;
    }
    assert(seed@ =~= stored_seed(bytes@));
    let bitmap_bits = (len_bytes as u64) * 8;
    Ok((bitmap_bits, k_num, seed))
}

/// Validates a serialized filter and returns the number of bits of its bitmap (never
/// zero), its hash count and its seed.
pub fn parse(bytes: &[u8]) -> (r: Result<(u64, u32, [u8; 32]), &'static str>)
    requires
        bitmap_size_fits(bytes@),
    ensures
        match r {
            Ok((bits, k, seed)) => spec_parse(bytes@) == Ok::<_, Seq<char>>((bits, k, seed@)),
            Err(e) => spec_parse(bytes@) == Err::<(u64, u32, Seq<u8>), _>(e@),
        },
{
    match parse_header(bytes) {
        Ok((bitmap_bits, k_num, seed)) => {
            if bitmap_bits == 0 {
                Err("Bitmap cannot be empty")
            } else {
                Ok((bitmap_bits, k_num, seed))
            }
        },
        Err(e) => Err(e),
    }
}

} // verus!
