//! A bloom filter without mutating methods.
use crate::bits::{all_clear, all_zero_from};
use crate::bloom::Bloom;
use crate::hash::{check, contains_hashes, item_hashes, siphash13};
use crate::header::{
    bitmap_size_fits, parse_header, spec_parse_header, stored_bits, HEADER_SIZE,
};
use crate::storage::{OwnedStorage, Storage};
use crate::text::{decimal_string, read_only_description};
use std::hash::Hash;
use std::marker::PhantomData;
use vstd::prelude::*;
use vstd::slice::slice_to_vec;
use vstd::string::StringExecFns;

verus! {

/// A read-only bloom filter for existence checks.
///
/// Unlike `Bloom`, this type has no mutating methods. Its header is validated as
/// `parse_header` does, so an empty bitmap is accepted (and no item can then be checked).
pub struct ReadOnlyBloom<T: ?Sized, S = OwnedStorage> {
    storage: S,
    bitmap_bits: u64,
    k_num: u32,
    seed: [u8; 32],
    _phantom: PhantomData<T>,
}

impl<T: ?Sized, S: Storage> ReadOnlyBloom<T, S> {
    /// The number of bits of the bitmap.
    pub closed spec fn bit_count(&self) -> u64 {
        self.bitmap_bits
    }

    /// The number of hash functions.
    pub closed spec fn hash_count(&self) -> u32 {
        self.k_num
    }

    /// The seed of the hash functions.
    pub closed spec fn seed_bytes(&self) -> Seq<u8> {
        self.seed@
    }

    /// The serialized filter: header, then bitmap.
    pub closed spec fn serialized(&self) -> Seq<u8> {
        self.storage.contents()
    }

    /// The bitmap.
    pub open spec fn bits(&self) -> Seq<u8> {
        stored_bits(self.serialized())
    }

    /// The header of the filter parses to its own bit count, hash count and seed.
    pub open spec fn wf(&self) -> bool {
        &&& bitmap_size_fits(self.serialized())
        &&& spec_parse_header(self.serialized()) == Ok::<_, Seq<char>>(
            (self.bit_count(), self.hash_count(), self.seed_bytes()),
        )
    }

    /// The bits selected by the hash values `h0`, `h1` are all set.
    pub open spec fn contains(&self, h0: u64, h1: u64) -> bool {
        contains_hashes(self.bits(), self.bit_count(), self.hash_count(), h0, h1)
    }

    /// Builds a read-only filter over `storage`, whose bytes must be a valid serialized
    /// filter (an empty bitmap is accepted).
    pub fn from_storage(storage: S) -> (r: Result<Self, &'static str>)
        requires
            bitmap_size_fits(storage.contents()),
        ensures
            match r {
                Ok(b) => {
                    &&& b.wf()
                    &&& b.serialized() == storage.contents()
                    &&& spec_parse_header(storage.contents()) == Ok::<_, Seq<char>>(
                        (b.bit_count(), b.hash_count(), b.seed_bytes()),
                    )
                },
                Err(e) => spec_parse_header(storage.contents()) == Err::<(u64, u32, Seq<u8>), _>(
                    e@,
                ),
            },
    {
        match parse_header(storage.bytes()) {
            Ok((bitmap_bits, k_num, seed)) => Ok(
                ReadOnlyBloom { storage, bitmap_bits, k_num, seed, _phantom: PhantomData },
            ),
            Err(e) => Err(e),
        }
    }

    /// Check if an item is present in the set.
    /// There can be false positives, but no false negatives.
    ///
    /// The answer is the one that `check_hashes` gives for the item's two hash values.
    pub fn check(&self, item: &T) -> (r: bool) where T: Hash
        requires
            self.wf(),
            self.bit_count() > 0,
        ensures
            exists|d0: Seq<u8>, d1: Seq<u8>|
                r == self.contains(
                    siphash13(self.seed_bytes().subrange(0, 16), d0),
                    siphash13(self.seed_bytes().subrange(16, 32), d1),
                ),
    {
        let hashes = item_hashes(&self.seed, item);
        let r = self.check_hashes(hashes);
        proof {
            let (d0, d1) = choose|d0: Seq<u8>, d1: Seq<u8>|
                hashes@[0] == siphash13(self.seed@.subrange(0, 16), d0) && hashes@[1] == siphash13(
                    self.seed@.subrange(16, 32),
                    d1,
                );
            assert(r == self.contains(
                siphash13(self.seed_bytes().subrange(0, 16), d0),
                siphash13(self.seed_bytes().subrange(16, 32), d1),
            ));
        }
        r
    }

    /// Tells whether the bits that the two hash values `hashes` select are all set.
    pub fn check_hashes(&self, hashes: [u64; 2]) -> (r: bool)
        requires
            self.wf(),
            self.bit_count() > 0,
        ensures
            r == self.contains(hashes@[0], hashes@[1]),
    {
        check(self.storage.bytes(), self.bitmap_bits, self.k_num, &hashes)
    }

    /// A copy of the filter whose bytes live on the heap.
    pub fn to_owned_storage(&self) -> (r: ReadOnlyBloom<T, OwnedStorage>)
        ensures
            r.serialized() == self.serialized(),
            r.bit_count() == self.bit_count(),
            r.hash_count() == self.hash_count(),
            r.seed_bytes() == self.seed_bytes(),
            self.wf() ==> r.wf(),
    {
        ReadOnlyBloom {
            storage: OwnedStorage::from_vec(slice_to_vec(self.storage.bytes())),
            bitmap_bits: self.bitmap_bits,
            k_num: self.k_num,
            seed: self.seed,
            _phantom: PhantomData,
        }
    }

    /// View the bloom filter as an opaque slice of bytes.
    pub fn as_slice(&self) -> (r: &[u8])
        ensures
            r@ == self.serialized(),
    {
        self.storage.bytes()
    }

    /// Serialize the bloom filter to a byte vector.
    pub fn to_bytes(&self) -> (r: Vec<u8>)
        ensures
            r@ == self.serialized(),
    {
        slice_to_vec(self.storage.bytes())
    }

    /// Return the number of hash functions.
    pub fn number_of_hash_functions(&self) -> (r: u32)
        ensures
            r == self.hash_count(),
    {
        self.k_num
    }

    /// A description of the filter: its number of bits and of hash functions.
    pub fn describe(&self) -> (r: String)
        ensures
            r@ == read_only_description(self.bit_count(), self.hash_count()),
    {
        proof {
            reveal_strlit("ReadOnlyBloom filter with ");
            reveal_strlit(" bits and ");
            reveal_strlit(" hash functions");
        }
        let mut out = String::new();
        out.append("ReadOnlyBloom filter with ");
        let bits = decimal_string(self.bitmap_bits);
        out.append(bits.as_str());
        out.append(" bits and ");
        let k = decimal_string(self.k_num as u64);
        out.append(k.as_str());
        out.append(" hash functions");
        assert(out@ =~= read_only_description(self.bitmap_bits, self.k_num));
        out
    }

    /// Return the number of bits in the filter.
    pub fn len(&self) -> (r: u64)
        ensures
            r == self.bit_count(),
    {
        self.bitmap_bits
    }

    /// Test if there are no elements in the set.
    pub fn is_empty(&self) -> (r: bool)
        requires
            self.wf(),
        ensures
            r == all_clear(self.bits()),
    {
        all_zero_from(self.storage.bytes(), HEADER_SIZE)
    }
}

impl<T: ?Sized, S: Storage> ReadOnlyBloom<T, S> {
    /// A read-only filter loaded from the bytes of a filter has its parameters and
    /// contains the same hash pairs.
    pub proof fn lemma_agrees_with_filter<U: ?Sized, R: Storage>(
        filter: &Bloom<U, R>,
        read_only: &Self,
        h0: u64,
        h1: u64,
    )
        requires
            filter.wf(),
            filter.header_agrees(),
            read_only.wf(),
            read_only.serialized() == filter.serialized(),
        ensures
            read_only.bit_count() == filter.bit_count(),
            read_only.hash_count() == filter.hash_count(),
            read_only.seed_bytes() == filter.seed_bytes(),
            read_only.contains(h0, h1) == filter.contains(h0, h1),
    {
    }
}

impl<T: ?Sized> ReadOnlyBloom<T, OwnedStorage> {
    /// Create a read-only bloom filter from a byte slice.
    pub fn from_slice(bytes: &[u8]) -> (r: Result<Self, &'static str>)
        requires
            bitmap_size_fits(bytes@),
        ensures
            match r {
                Ok(b) => {
                    &&& b.wf()
                    &&& b.serialized() == bytes@
                    &&& spec_parse_header(bytes@) == Ok::<_, Seq<char>>(
                        (b.bit_count(), b.hash_count(), b.seed_bytes()),
                    )
                },
                Err(e) => spec_parse_header(bytes@) == Err::<(u64, u32, Seq<u8>), _>(e@),
            },
    {
        Self::from_storage(OwnedStorage::from_vec(slice_to_vec(bytes)))
    }

    /// Create a read-only bloom filter from a byte vector.
    pub fn from_bytes(bytes: Vec<u8>) -> (r: Result<Self, &'static str>)
        requires
            bitmap_size_fits(bytes@),
        ensures
            match r {
                Ok(b) => {
                    &&& b.wf()
                    &&& b.serialized() == bytes@
                    &&& spec_parse_header(bytes@) == Ok::<_, Seq<char>>(
                        (b.bit_count(), b.hash_count(), b.seed_bytes()),
                    )
                },
                Err(e) => spec_parse_header(bytes@) == Err::<(u64, u32, Seq<u8>), _>(e@),
            },
    {
        Self::from_storage(OwnedStorage::from_vec(bytes))
    }
}

impl<T: ?Sized> Clone for ReadOnlyBloom<T, OwnedStorage> {
    fn clone(&self) -> (r: Self)
        ensures
            r.serialized() == self.serialized(),
            r.bit_count() == self.bit_count(),
            r.hash_count() == self.hash_count(),
            r.seed_bytes() == self.seed_bytes(),
            self.wf() ==> r.wf(),
    {
        ReadOnlyBloom {
            storage: OwnedStorage::from_vec(slice_to_vec(self.storage.bytes())),
            bitmap_bits: self.bitmap_bits,
            k_num: self.k_num,
            seed: self.seed,
            _phantom: PhantomData,
        }
    }
}

} // verus!
