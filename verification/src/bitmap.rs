//! A bitmap preceded by the filter header, over any storage.
use crate::bits::{all_clear, all_zero_from, bit_is_set, fill_from, set_bit, test_bit};
use crate::header::{
    bitmap_size_fits, parse_header, set_len_bytes, set_version, spec_parse_header, stored_bits,
    HEADER_SIZE, VERSION,
};
use crate::mmap::{mapped_bytes_mut, MmapMutStorage};
use crate::storage::{new_storage, spec_new_storage, OwnedStorage, Storage, StorageMut};
use memmap2::MmapMut;
use vstd::prelude::*;
use vstd::slice::slice_to_vec;

verus! {

/// Size in bytes of the header that precedes the bitmap.
pub const BITMAP_HEADER_SIZE: usize = HEADER_SIZE;

/// A bitmap preceded by the filter header.
pub struct BitMap<S = OwnedStorage> {
    header_and_bits: S,
}

/// The size in bytes of a file that holds the header and a bitmap of `len_bytes` bytes, or
/// "Too big" when that size does not fit in a `usize`.
pub fn file_len_for(len_bytes: usize) -> (r: Result<u64, &'static str>)
    ensures
        match r {
            Ok(total) => HEADER_SIZE + len_bytes <= usize::MAX && total == HEADER_SIZE + len_bytes,
            Err(e) => HEADER_SIZE + len_bytes > usize::MAX && e@ == "Too big"@,
        },
{
    if len_bytes > usize::MAX - HEADER_SIZE {
        return Err("Too big");
    }
    Ok((HEADER_SIZE + len_bytes) as u64)
}

/// Validates the layout of a serialized bitmap, as `parse_header` does.
fn validate_layout(bytes: &[u8]) -> (r: Result<(), &'static str>)
    requires
        bitmap_size_fits(bytes@),
    ensures
        match r {
            Ok(()) => spec_parse_header(bytes@) is Ok,
            Err(e) => spec_parse_header(bytes@) == Err::<(u64, u32, Seq<u8>), _>(e@),
        },
{
    match parse_header(bytes) {
        Ok(_) => Ok(()),
        Err(e) => Err(e),
    }
}

impl<S: Storage> BitMap<S> {
    /// The header and the bitmap.
    pub closed spec fn serialized(&self) -> Seq<u8> {
        self.header_and_bits.contents()
    }

    /// The bitmap.
    pub open spec fn bits(&self) -> Seq<u8> {
        stored_bits(self.serialized())
    }

    /// Builds a bitmap over `storage`, whose bytes must be a valid serialized filter.
    pub fn from_storage(storage: S) -> (r: Result<Self, &'static str>)
        requires
            bitmap_size_fits(storage.contents()),
        ensures
            match r {
                Ok(b) => b.serialized() == storage.contents() && spec_parse_header(
                    storage.contents(),
                ) is Ok,
                Err(e) => spec_parse_header(storage.contents()) == Err::<(u64, u32, Seq<u8>), _>(
                    e@,
                ),
            },
    {
        match validate_layout(storage.bytes()) {
            Ok(()) => Ok(BitMap { header_and_bits: storage }),
            Err(e) => Err(e),
        }
    }

    /// A heap-allocated copy of the bitmap.
    pub fn to_owned_storage(&self) -> (r: BitMap<OwnedStorage>)
        ensures
            r.serialized() == self.serialized(),
    {
        BitMap { header_and_bits: OwnedStorage::from_vec(slice_to_vec(self.header_and_bits.bytes())) }
    }

    /// The storage that holds the bytes.
    pub fn storage(&self) -> (r: &S)
        ensures
            r.contents() == self.serialized(),
    {
        &self.header_and_bits
    }

    /// View the header and the bitmap as a slice of bytes.
    pub fn as_slice(&self) -> (r: &[u8])
        ensures
            r@ == self.serialized(),
    {
        self.header_and_bits.bytes()
    }

    /// Copy the header and the bitmap into a byte vector.
    pub fn to_bytes(&self) -> (r: Vec<u8>)
        ensures
            r@ == self.serialized(),
    {
        slice_to_vec(self.header_and_bits.bytes())
    }

    /// Reads bit `bit_offset` of the bitmap.
    pub fn get(&self, bit_offset: usize) -> (r: bool)
        requires
            self.serialized().len() >= HEADER_SIZE,
            bit_offset < 8 * self.bits().len(),
        ensures
            r == bit_is_set(self.bits(), bit_offset as int),
    {
        test_bit(self.header_and_bits.bytes(), HEADER_SIZE, bit_offset as u64)
    }

    /// Tells whether some bit of the bitmap is set.
    pub fn any(&self) -> (r: bool)
        requires
            self.serialized().len() >= HEADER_SIZE,
        ensures
            r == !all_clear(self.bits()),
    {
        !all_zero_from(self.header_and_bits.bytes(), HEADER_SIZE)
    }

    /// The number of bits of the bitmap.
    pub fn len_bits(&self) -> (r: u64)
        requires
            self.serialized().len() >= HEADER_SIZE,
            bitmap_size_fits(self.serialized()),
        ensures
            r == 8 * self.bits().len(),
    {
        let n = self.header_and_bits.bytes().len();
        ((n - HEADER_SIZE) as u64) * 8
    }
}

impl<S: StorageMut> BitMap<S> {
    /// Writes a fresh layout into `storage`: the header for a bitmap of `len_bytes` bytes
    /// (version, length, no hash function, zero seed) and an all-zero bitmap.
    pub fn initialize(storage: S, len_bytes: usize) -> (r: Self)
        requires
            storage.contents().len() == HEADER_SIZE + len_bytes,
        ensures
            r.serialized() == spec_new_storage(len_bytes, 0, Seq::new(32, |i: int| 0u8)),
    {
        let mut storage = storage;
        let bytes = storage.bytes_mut();
        fill_from(bytes, 0, 0u8);
        set_version(bytes, VERSION);
        set_len_bytes(bytes, len_bytes as u64);
        crate::header::set_k_num(bytes, 0);
        proof {
            vstd::bytes::lemma_auto_spec_u64_to_from_le_bytes();
            vstd::bytes::lemma_auto_spec_u32_to_from_le_bytes();
            let expected = spec_new_storage(len_bytes, 0, Seq::new(32, |i: int| 0u8));
            assert(bytes@.len() == expected.len());
            assert forall|i: int| 0 <= i < bytes@.len() implies bytes@[i] == expected[i] by {
                if i >= 13 {
                    assert(expected[i] == 0);
                }
            }
            assert(bytes@ =~= expected);
        }
        BitMap { header_and_bits: storage }
    }

    /// The header, writable.
    pub fn header_mut(&mut self) -> (r: &mut [u8])
        requires
            old(self).serialized().len() >= HEADER_SIZE,
        ensures
            r@ == old(self).serialized().subrange(0, HEADER_SIZE as int),
            final(self).serialized() == final(r)@ + old(self).bits(),
    {
        let bytes = self.header_and_bits.bytes_mut();
        let (header, _bits) = bytes.split_at_mut(HEADER_SIZE);
        header
    }

    /// Sets bit `bit_offset` of the bitmap.
    pub fn set(&mut self, bit_offset: usize)
        requires
            old(self).serialized().len() >= HEADER_SIZE,
            bit_offset < 8 * old(self).bits().len(),
        ensures
            final(self).serialized().len() == old(self).serialized().len(),
            final(self).serialized().subrange(0, HEADER_SIZE as int) == old(
                self,
            ).serialized().subrange(0, HEADER_SIZE as int),
            forall|i: int|
                0 <= i < 8 * old(self).bits().len() ==> (bit_is_set(final(self).bits(), i) <==> (
                bit_is_set(old(self).bits(), i) || i == bit_offset)),
    {
        let bytes = self.header_and_bits.bytes_mut();
        set_bit(bytes, HEADER_SIZE, bit_offset as u64);
    }

    /// Clears every bit of the bitmap.
    pub fn clear(&mut self)
        requires
            old(self).serialized().len() >= HEADER_SIZE,
        ensures
            final(self).serialized().len() == old(self).serialized().len(),
            final(self).serialized().subrange(0, HEADER_SIZE as int) == old(
                self,
            ).serialized().subrange(0, HEADER_SIZE as int),
            all_clear(final(self).bits()),
    {
        let bytes = self.header_and_bits.bytes_mut();
        fill_from(bytes, HEADER_SIZE, 0u8);
    }

    /// Sets every bit of the bitmap.
    pub fn set_all(&mut self)
        requires
            old(self).serialized().len() >= HEADER_SIZE,
        ensures
            final(self).serialized().len() == old(self).serialized().len(),
            final(self).serialized().subrange(0, HEADER_SIZE as int) == old(
                self,
            ).serialized().subrange(0, HEADER_SIZE as int),
            forall|b: int| 0 <= b < final(self).bits().len() ==> final(self).bits()[b] == 0xffu8,
    {
        let bytes = self.header_and_bits.bytes_mut();
        fill_from(bytes, HEADER_SIZE, 0xffu8);
    }
}

impl BitMap<MmapMutStorage> {
    /// A bitmap over the writable map `mmap`, which must hold a valid serialized filter.
    pub fn from_mmap_mut(mmap: MmapMut) -> (r: Result<Self, &'static str>)
        requires
            bitmap_size_fits(mapped_bytes_mut(mmap)),
        ensures
            match r {
                Ok(b) => b.serialized() == mapped_bytes_mut(mmap) && spec_parse_header(
                    mapped_bytes_mut(mmap),
                ) is Ok,
                Err(e) => spec_parse_header(mapped_bytes_mut(mmap)) == Err::<
                    (u64, u32, Seq<u8>),
                    _,
                >(e@),
            },
    {
        Self::from_storage(MmapMutStorage::from_mmap_mut(mmap))
    }

    /// Consumes the bitmap and returns a copy of its bytes.
    pub fn into_bytes(self) -> (r: Vec<u8>)
        ensures
            r@ == self.serialized(),
    {
        slice_to_vec(self.header_and_bits.bytes())
    }
    /// A bitmap over the writable map `mmap` when its bitmap's bit count fits in a `u64`
    /// (`None` otherwise), which must hold a valid serialized filter.
    pub fn try_from_mmap_mut(mmap: MmapMut) -> (r: Option<Result<Self, &'static str>>)
        ensures
            r is None <==> !bitmap_size_fits(mapped_bytes_mut(mmap)),
            r matches Some(res) ==> match res {
                Ok(b) => b.serialized() == mapped_bytes_mut(mmap) && spec_parse_header(
                    mapped_bytes_mut(mmap),
                ) is Ok,
                Err(e) => spec_parse_header(mapped_bytes_mut(mmap)) == Err::<
                    (u64, u32, Seq<u8>),
                    _,
                >(e@),
            },
    {
        let storage = MmapMutStorage::from_mmap_mut(mmap);
        let len = storage.bytes().len();
        if len > HEADER_SIZE && (len - HEADER_SIZE) as u64 > u64::MAX / 8 {
            return None;
        }
        Some(Self::from_storage(storage))
    }
}

impl Clone for BitMap<OwnedStorage> {
    fn clone(&self) -> (r: Self)
        ensures
            r.serialized() == self.serialized(),
    {
        BitMap { header_and_bits: OwnedStorage::from_vec(slice_to_vec(self.header_and_bits.bytes())) }
    }
}

impl BitMap<OwnedStorage> {
    /// A heap-allocated bitmap of `len_bytes` zero bytes, with a header that records the
    /// version and that length, no hash function and a zero seed.
    pub fn new(len_bytes: usize) -> (r: Self)
        requires
            len_bytes <= usize::MAX - HEADER_SIZE,
        ensures
            r.serialized() == spec_new_storage(len_bytes, 0, Seq::new(32, |i: int| 0u8)),
    {
        let seed = [0u8; 32];
        assert(seed@ =~= Seq::new(32, |i: int| 0u8));
        BitMap { header_and_bits: OwnedStorage::from_vec(new_storage(len_bytes, 0, &seed)) }
    }

    /// Writes the hash count into a header.
    pub fn set_k_num(header: &mut [u8], k_num: u32)
        requires
            old(header)@.len() >= 13,
        ensures
            final(header)@ == old(header)@.subrange(0, 9) + vstd::bytes::spec_u32_to_le_bytes(
                k_num,
            ) + old(header)@.subrange(13, old(header)@.len() as int),
    {
        crate::header::set_k_num(header, k_num);
    }

    /// Writes the seed into a header.
    pub fn set_seed(header: &mut [u8], seed: &[u8; 32])
        requires
            old(header)@.len() >= 45,
        ensures
            final(header)@ == old(header)@.subrange(0, 13) + seed@ + old(header)@.subrange(
                45,
                old(header)@.len() as int,
            ),
    {
        crate::header::set_seed(header, seed);
    }

    /// A bitmap that holds `bytes`, which must be a valid serialized filter.
    pub fn from_bytes(bytes: Vec<u8>) -> (r: Result<Self, &'static str>)
        requires
            bitmap_size_fits(bytes@),
        ensures
            match r {
                Ok(b) => b.serialized() == bytes@ && spec_parse_header(bytes@) is Ok,
                Err(e) => spec_parse_header(bytes@) == Err::<(u64, u32, Seq<u8>), _>(e@),
            },
    {
        Self::from_storage(OwnedStorage::from_vec(bytes))
    }

    /// A bitmap that holds a copy of `bytes`, which must be a valid serialized filter.
    pub fn from_slice(bytes: &[u8]) -> (r: Result<Self, &'static str>)
        requires
            bitmap_size_fits(bytes@),
        ensures
            match r {
                Ok(b) => b.serialized() == bytes@ && spec_parse_header(bytes@) is Ok,
                Err(e) => spec_parse_header(bytes@) == Err::<(u64, u32, Seq<u8>), _>(e@),
            },
    {
        Self::from_storage(OwnedStorage::from_vec(slice_to_vec(bytes)))
    }

    /// Consumes the bitmap and returns its bytes.
    pub fn into_bytes(self) -> (r: Vec<u8>)
        ensures
            r@ == self.serialized(),
    {
        self.header_and_bits.into_bytes()
    }

    /// The vector that holds the bytes.
    pub closed spec fn owned_vec(&self) -> Vec<u8> {
        self.header_and_bits.vec()
    }

    /// The vector that holds the bitmap holds exactly its bytes.
    pub proof fn lemma_owned_vec_holds_bytes(&self)
        ensures
            self.owned_vec()@ == self.serialized(),
    {
        self.header_and_bits.lemma_vec_holds_contents();
    }

    /// Hands the bytes to `f` and keeps the vector that it returns in their place, for
    /// moving the bitmap to another allocation. `f` must keep the length and the format
    /// version.
    pub fn realloc_large_heap_allocated_objects<F: FnOnce(Vec<u8>) -> Vec<u8>>(self, f: F) -> (r:
        Self)
        requires
            f.requires((self.owned_vec(),)),
            forall|w: Vec<u8>|
                #[trigger] f.ensures((self.owned_vec(),), w) ==> w@.len() == self.serialized().len()
                    && w@.len() >= HEADER_SIZE && w@[0] == VERSION,
        ensures
            self.owned_vec()@ == self.serialized(),
            exists|w: Vec<u8>| #[trigger] f.ensures((self.owned_vec(),), w) && r.serialized() == w@,
    {
        let previous_bytes = self.header_and_bits.into_bytes();
        let header_and_bits = f(previous_bytes);
        BitMap { header_and_bits: OwnedStorage::from_vec(header_and_bits) }
    }

    /// Flush pending writes; for a heap-allocated bitmap, this is a no-op.
    pub fn flush(&self) -> (r: std::io::Result<()>)
        ensures
            r is Ok,
    {
        Ok(())
    }
}

} // verus!
