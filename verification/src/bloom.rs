//! The bloom filter, generic over the storage that holds its bytes.
use crate::bits::{
    all_clear, all_zero_from, bit_is_set, fill_from, lemma_bits_determine_bytes,
    lemma_constant_bytes,
};
use crate::hash::{
    bit_position, check, check_and_set_positions, contains_hashes, inserted, item_hashes,
    selected, set_positions, siphash13,
};
use crate::header::{
    bitmap_size_fits, lemma_parse_depends_on_header, parse, spec_parse, stored_bits,
    HEADER_SIZE, VERSION,
};
use crate::storage::{
    lemma_new_storage_parses, spec_new_storage, OwnedStorage, Storage, StorageMut,
};
use crate::text::{decimal_string, filter_description, push_byte_list};
use std::hash::Hash;
use std::marker::PhantomData;
use vstd::prelude::*;
use vstd::slice::slice_to_vec;
use vstd::string::StringExecFns;

verus! {

/// Bloom filter structure, generic over storage backend.
///
/// Use `OwnedStorage` for heap-allocated filters, or a read-only storage for memory-mapped
/// files.
pub struct Bloom<T: ?Sized, S = crate::storage::OwnedStorage> {
    pub(crate) storage: S,
    pub(crate) bitmap_bits: u64,
    pub(crate) k_num: u32,
    pub(crate) seed: [u8; 32],
    pub(crate) _phantom: PhantomData<T>,
}

impl<T: ?Sized, S> Bloom<T, S> {
    /// The number of bits of the bitmap.
    pub closed spec fn bit_count(&self) -> u64 {
        self.bitmap_bits
    }

    /// The number of hash functions.
    pub closed spec fn hash_count(&self) -> u32 {
        self.k_num
    }

    /// The seed of the hash functions.
    pub closed spec fn seed_bytes(&self) -> Seq<u8> {
        self.seed@
    }

    /// Return the number of bits in the filter.
    pub fn len(&self) -> (r: u64)
        ensures
            r == self.bit_count(),
    {
        self.bitmap_bits
    }

    /// Return the number of hash functions used for `check` and `set`.
    pub fn number_of_hash_functions(&self) -> (r: u32)
        ensures
            r == self.hash_count(),
    {
        self.k_num
    }

    /// Return the seed used to generate the hash functions.
    pub fn seed(&self) -> (r: [u8; 32])
        ensures
            r@ == self.seed_bytes(),
    {
        self.seed
    }

    /// A description of the filter: its number of bits, of hash functions and its seed.
    pub fn describe(&self) -> (r: String)
        ensures
            r@ == filter_description(self.bit_count(), self.hash_count(), self.seed_bytes()),
    {
        proof {
            reveal_strlit("Bloom filter with ");
            reveal_strlit(" bits, ");
            reveal_strlit(" hash functions and seed: ");
            reveal_strlit(" ");
        }
        let mut out = String::new();
        out.append("Bloom filter with ");
        let bits = decimal_string(self.bitmap_bits);
        out.append(bits.as_str());
        out.append(" bits, ");
        let k = decimal_string(self.k_num as u64);
        out.append(k.as_str());
        out.append(" hash functions and seed: ");
        push_byte_list(&mut out, self.seed.as_slice());
        out.append(" ");
        assert(out@ =~= filter_description(self.bitmap_bits, self.k_num, self.seed@));
        out
    }
}

impl<T: ?Sized, S: Storage> Bloom<T, S> {
    /// The serialized filter: header, then bitmap.
    pub closed spec fn serialized(&self) -> Seq<u8> {
        self.storage.contents()
    }

    /// The bitmap.
    pub open spec fn bits(&self) -> Seq<u8> {
        stored_bits(self.serialized())
    }

    /// The filter is well formed: its bytes are a header followed by a bitmap of
    /// `bit_count()` bits, that number is positive and fits in a `u64`, and there is at
    /// least one hash function.
    pub open spec fn wf(&self) -> bool {
        &&& self.hash_count() > 0
        &&& bitmap_size_fits(self.serialized())
        &&& self.serialized().len() >= HEADER_SIZE
        &&& self.bit_count() == 8 * (self.serialized().len() - HEADER_SIZE)
        &&& self.bit_count() > 0
    }

    /// The header of the filter parses to its own bit count, hash count and seed.
    pub open spec fn header_agrees(&self) -> bool {
        spec_parse(self.serialized()) == Ok::<_, Seq<char>>(
            (self.bit_count(), self.hash_count(), self.seed_bytes()),
        )
    }

    /// The bits selected by the hash values `h0`, `h1` are all set.
    pub open spec fn contains(&self, h0: u64, h1: u64) -> bool {
        contains_hashes(self.bits(), self.bit_count(), self.hash_count(), h0, h1)
    }

    /// `self` is `before` with the bits selected by the hash values `h0`, `h1` set as well:
    /// same header, same parameters.
    pub open spec fn is_insertion_of(&self, before: &Self, h0: u64, h1: u64) -> bool {
        &&& self.bit_count() == before.bit_count()
        &&& self.hash_count() == before.hash_count()
        &&& self.seed_bytes() == before.seed_bytes()
        &&& self.serialized().len() == before.serialized().len()
        &&& self.serialized().subrange(0, HEADER_SIZE as int) == before.serialized().subrange(
            0,
            HEADER_SIZE as int,
        )
        &&& inserted(before.bits(), self.bits(), self.bit_count(), self.hash_count(), h0, h1)
    }

    /// `self` is `before` with every byte of the bitmap set to `value`.
    pub open spec fn is_refill_of(&self, before: &Self, value: u8) -> bool {
        &&& self.bit_count() == before.bit_count()
        &&& self.hash_count() == before.hash_count()
        &&& self.seed_bytes() == before.seed_bytes()
        &&& self.serialized().len() == before.serialized().len()
        &&& self.serialized().subrange(0, HEADER_SIZE as int) == before.serialized().subrange(
            0,
            HEADER_SIZE as int,
        )
        &&& forall|b: int| 0 <= b < self.bits().len() ==> self.bits()[b] == value
    }

    /// Check if an item is present in the set.
    /// There can be false positives, but no false negatives.
    ///
    /// The answer is the one that `check_hashes` gives for the item's two hash values.
    pub fn check(&self, item: &T) -> (r: bool) where T: Hash
        requires
            self.wf(),
        ensures
            exists|d0: Seq<u8>, d1: Seq<u8>|
                r == self.contains(
                    siphash13(self.seed_bytes().subrange(0, 16), d0),
                    siphash13(self.seed_bytes().subrange(16, 32), d1),
                ),
    {
        let hashes = item_hashes(&self.seed, item);
        let r = self.check_hashes(hashes);
        proof {
            let (d0, d1) = choose|d0: Seq<u8>, d1: Seq<u8>|
                hashes@[0] == siphash13(self.seed@.subrange(0, 16), d0) && hashes@[1] == siphash13(
                    self.seed@.subrange(16, 32),
                    d1,
                );
            assert(r == self.contains(
                siphash13(self.seed_bytes().subrange(0, 16), d0),
                siphash13(self.seed_bytes().subrange(16, 32), d1),
            ));
        }
        r
    }

    /// Tells whether the bits that the two hash values `hashes` select are all set.
    pub fn check_hashes(&self, hashes: [u64; 2]) -> (r: bool)
        requires
            self.wf(),
        ensures
            r == self.contains(hashes@[0], hashes@[1]),
    {
        check(self.storage.bytes(), self.bitmap_bits, self.k_num, &hashes)
    }

    /// Test if there are no elements in the set.
    pub fn is_empty(&self) -> (r: bool)
        requires
            self.wf(),
        ensures
            r == all_clear(self.bits()),
    {
        all_zero_from(self.storage.bytes(), HEADER_SIZE)
    }

    /// View the bloom filter as an opaque slice of bytes.
    pub fn as_slice(&self) -> (r: &[u8])
        ensures
            r@ == self.serialized(),
    {
        self.storage.bytes()
    }

    /// Builds a filter over `storage`, whose bytes must be a valid serialized filter.
    pub fn from_storage(storage: S) -> (r: Result<Self, &'static str>)
        requires
            bitmap_size_fits(storage.contents()),
        ensures
            match r {
                Ok(b) => {
                    &&& b.wf()
                    &&& b.header_agrees()
                    &&& b.serialized() == storage.contents()
                    &&& spec_parse(storage.contents()) == Ok::<_, Seq<char>>(
                        (b.bit_count(), b.hash_count(), b.seed_bytes()),
                    )
                },
                Err(e) => spec_parse(storage.contents()) == Err::<(u64, u32, Seq<u8>), _>(e@),
            },
    {
        match parse(storage.bytes()) {
            Ok((bitmap_bits, k_num, seed)) => Ok(
                Bloom { storage, bitmap_bits, k_num, seed, _phantom: PhantomData },
            ),
            Err(e) => Err(e),
        }
    }
}

impl<T: ?Sized, S: StorageMut> Bloom<T, S> {
    /// Record the presence of an item.
    ///
    /// The change is the one that `set_hashes` makes for the item's two hash values.
    pub fn set(&mut self, item: &T) where T: Hash
        requires
            old(self).wf(),
        ensures
            final(self).wf(),
            old(self).header_agrees() ==> final(self).header_agrees(),
            exists|d0: Seq<u8>, d1: Seq<u8>|
                final(self).is_insertion_of(
                    old(self),
                    siphash13(old(self).seed_bytes().subrange(0, 16), d0),
                    siphash13(old(self).seed_bytes().subrange(16, 32), d1),
                ),
    {
        let hashes = item_hashes(&self.seed, item);
        self.set_hashes(hashes);
        proof {
            let (d0, d1) = choose|d0: Seq<u8>, d1: Seq<u8>|
                hashes@[0] == siphash13(old(self).seed@.subrange(0, 16), d0) && hashes@[1]
                    == siphash13(old(self).seed@.subrange(16, 32), d1);
            assert(final(self).is_insertion_of(
                old(self),
                siphash13(old(self).seed_bytes().subrange(0, 16), d0),
                siphash13(old(self).seed_bytes().subrange(16, 32), d1),
            ));
        }
    }

    /// Sets the bits that the two hash values `hashes` select.
    pub fn set_hashes(&mut self, hashes: [u64; 2])
        requires
            old(self).wf(),
        ensures
            final(self).wf(),
            old(self).header_agrees() ==> final(self).header_agrees(),
            final(self).is_insertion_of(old(self), hashes@[0], hashes@[1]),
    {
        let bitmap_bits = self.bitmap_bits;
        let k_num = self.k_num;
        let bytes = self.storage.bytes_mut();
        set_positions(bytes, bitmap_bits, k_num, &hashes);
        proof {
            lemma_parse_depends_on_header(old(self).serialized(), self.serialized());
        }
    }

    /// Record the presence of an item in the set, and return the previous state of this
    /// item.
    ///
    /// The answer and the change are those of `check_and_set_hashes` for the item's two
    /// hash values.
    pub fn check_and_set(&mut self, item: &T) -> (r: bool) where T: Hash
        requires
            old(self).wf(),
        ensures
            final(self).wf(),
            old(self).header_agrees() ==> final(self).header_agrees(),
            exists|d0: Seq<u8>, d1: Seq<u8>|
                #![trigger siphash13(old(self).seed_bytes().subrange(0, 16), d0), siphash13(old(self).seed_bytes().subrange(16, 32), d1)]
                r == old(self).contains(
                    siphash13(old(self).seed_bytes().subrange(0, 16), d0),
                    siphash13(old(self).seed_bytes().subrange(16, 32), d1),
                ) && final(self).is_insertion_of(
                    old(self),
                    siphash13(old(self).seed_bytes().subrange(0, 16), d0),
                    siphash13(old(self).seed_bytes().subrange(16, 32), d1),
                ),
    {
        let hashes = item_hashes(&self.seed, item);
        let r = self.check_and_set_hashes(hashes);
        proof {
            let (d0, d1) = choose|d0: Seq<u8>, d1: Seq<u8>|
                hashes@[0] == siphash13(old(self).seed@.subrange(0, 16), d0) && hashes@[1]
                    == siphash13(old(self).seed@.subrange(16, 32), d1);
            let h0 = siphash13(old(self).seed_bytes().subrange(0, 16), d0);
            let h1 = siphash13(old(self).seed_bytes().subrange(16, 32), d1);
            assert(r == old(self).contains(h0, h1) && final(self).is_insertion_of(old(self), h0, h1));
        }
        r
    }

    /// Sets the bits that the two hash values `hashes` select, and tells whether they were
    /// all set before.
    pub fn check_and_set_hashes(&mut self, hashes: [u64; 2]) -> (r: bool)
        requires
            old(self).wf(),
        ensures
            final(self).wf(),
            old(self).header_agrees() ==> final(self).header_agrees(),
            r == old(self).contains(hashes@[0], hashes@[1]),
            final(self).is_insertion_of(old(self), hashes@[0], hashes@[1]),
    {
        let bitmap_bits = self.bitmap_bits;
        let k_num = self.k_num;
        let bytes = self.storage.bytes_mut();
        let found = check_and_set_positions(bytes, bitmap_bits, k_num, &hashes);
        proof {
            lemma_parse_depends_on_header(old(self).serialized(), self.serialized());
        }
        found
    }

    /// Clear all of the bits in the filter, removing all keys from the set.
    pub fn clear(&mut self)
        requires
            old(self).wf(),
        ensures
            final(self).wf(),
            old(self).header_agrees() ==> final(self).header_agrees(),
            final(self).is_refill_of(old(self), 0u8),
    {
        let bytes = self.storage.bytes_mut();
        fill_from(bytes, HEADER_SIZE, 0u8);
        proof {
            lemma_parse_depends_on_header(old(self).serialized(), self.serialized());
        }
    }

    /// Set all of the bits in the filter, making it appear like every key is in the set.
    pub fn fill(&mut self)
        requires
            old(self).wf(),
        ensures
            final(self).wf(),
            old(self).header_agrees() ==> final(self).header_agrees(),
            final(self).is_refill_of(old(self), 0xffu8),
    {
        let bytes = self.storage.bytes_mut();
        fill_from(bytes, HEADER_SIZE, 0xffu8);
        proof {
            lemma_parse_depends_on_header(old(self).serialized(), self.serialized());
        }
    }
}


/// `std::io::Error`, the error of `flush`.
#[verifier::external_type_specification]
#[verifier::external_body]
pub struct ExIoError(std::io::Error);

/// A fresh 32-byte seed from `getrandom::getrandom`, or `None` when the operating system's
/// random source fails. The bytes are random: nothing is stated of them.
#[verifier::external_body]
fn random_seed() -> Option<[u8; 32]> {
    let mut seed = [0u8; 32];
    match getrandom::getrandom(&mut seed) {
        Ok(()) => Some(seed),
        Err(_) => None,
    }
}

impl<T: ?Sized> Clone for Bloom<T, OwnedStorage> {
    fn clone(&self) -> (r: Self)
        ensures
            r.serialized() == self.serialized(),
            r.bit_count() == self.bit_count(),
            r.hash_count() == self.hash_count(),
            r.seed_bytes() == self.seed_bytes(),
            self.wf() ==> r.wf(),
            self.header_agrees() ==> r.header_agrees(),
    {
        Bloom {
            storage: OwnedStorage::from_vec(slice_to_vec(self.storage.bytes())),
            bitmap_bits: self.bitmap_bits,
            k_num: self.k_num,
            seed: self.seed,
            _phantom: PhantomData,
        }
    }
}

impl<T: ?Sized> Bloom<T, OwnedStorage> {
    /// Serialize the bloom filter to an opaque byte vector.
    pub fn to_bytes(&self) -> (r: Vec<u8>)
        ensures
            r@ == self.serialized(),
    {
        slice_to_vec(self.storage.bytes())
    }

    /// The vector that holds the filter's bytes.
    pub closed spec fn owned_vec(&self) -> Vec<u8> {
        self.storage.vec()
    }

    /// The vector that holds the filter holds exactly its bytes.
    pub proof fn lemma_owned_vec_holds_bytes(&self)
        ensures
            self.owned_vec()@ == self.serialized(),
    {
        self.storage.lemma_vec_holds_contents();
    }

    /// Hands the filter's bytes to `f` and keeps the vector that it returns in their place,
    /// for moving the bitmap to another allocation. `f` must keep the length and the
    /// format version.
    pub fn realloc_large_heap_allocated_objects<F: FnOnce(Vec<u8>) -> Vec<u8>>(self, f: F) -> (r:
        Self)
        requires
            self.wf(),
            f.requires((self.owned_vec(),)),
            forall|w: Vec<u8>|
                #[trigger] f.ensures((self.owned_vec(),), w) ==> w@.len() == self.serialized().len()
                    && w@[0] == VERSION,
        ensures
            self.owned_vec()@ == self.serialized(),
            exists|w: Vec<u8>| #[trigger] f.ensures((self.owned_vec(),), w) && r.serialized() == w@,
            r.wf(),
            r.bit_count() == self.bit_count(),
            r.hash_count() == self.hash_count(),
            r.seed_bytes() == self.seed_bytes(),
            self.header_agrees() && r.serialized().subrange(0, HEADER_SIZE as int)
                == self.serialized().subrange(0, HEADER_SIZE as int) ==> r.header_agrees(),
    {
        let Bloom { storage, bitmap_bits, k_num, seed, _phantom } = self;
        let ghost old_bytes = storage.contents();
        let previous_bytes = storage.into_bytes();
        let new_bytes = f(previous_bytes);
        let r = Bloom {
            storage: OwnedStorage::from_vec(new_bytes),
            bitmap_bits,
            k_num,
            seed,
            _phantom: PhantomData,
        };
        proof {
            if self.header_agrees() && r.serialized().subrange(0, HEADER_SIZE as int)
                == old_bytes.subrange(0, HEADER_SIZE as int) {
                lemma_parse_depends_on_header(old_bytes, r.serialized());
            }
        }
        r
    }

    /// Transform the bloom filter into a byte vector.
    pub fn into_bytes(self) -> (r: Vec<u8>)
        ensures
            r@ == self.serialized(),
    {
        self.storage.into_bytes()
    }

    /// Flush pending writes to persistent storage.
    /// For in-memory filters, this is a no-op.
    pub fn flush(&self) -> (r: std::io::Result<()>)
        ensures
            r is Ok,
    {
        Ok(())
    }

    /// Create a bloom filter from a slice of bytes, previously generated with `as_slice`.
    pub fn from_slice(bytes: &[u8]) -> (r: Result<Self, &'static str>)
        requires
            bitmap_size_fits(bytes@),
        ensures
            match r {
                Ok(b) => {
                    &&& b.wf()
                    &&& b.header_agrees()
                    &&& b.serialized() == bytes@
                    &&& spec_parse(bytes@) == Ok::<_, Seq<char>>(
                        (b.bit_count(), b.hash_count(), b.seed_bytes()),
                    )
                },
                Err(e) => spec_parse(bytes@) == Err::<(u64, u32, Seq<u8>), _>(e@),
            },
    {
        Self::from_storage(OwnedStorage::from_vec(slice_to_vec(bytes)))
    }

    /// Transform a byte vector into a bloom filter.
    pub fn from_bytes(bytes: Vec<u8>) -> (r: Result<Self, &'static str>)
        requires
            bitmap_size_fits(bytes@),
        ensures
            match r {
                Ok(b) => {
                    &&& b.wf()
                    &&& b.header_agrees()
                    &&& b.serialized() == bytes@
                    &&& spec_parse(bytes@) == Ok::<_, Seq<char>>(
                        (b.bit_count(), b.hash_count(), b.seed_bytes()),
                    )
                },
                Err(e) => spec_parse(bytes@) == Err::<(u64, u32, Seq<u8>), _>(e@),
            },
    {
        Self::from_storage(OwnedStorage::from_vec(bytes))
    }

    /// The sizes that a filter is made for, in bytes of bitmap and in expected items, must
    /// both be positive.
    pub fn validate_sizes(bitmap_size: usize, items_count: usize) -> (r: Result<(), &'static str>)
        ensures
            r is Ok <==> bitmap_size > 0 && items_count > 0,
            r matches Err(e) ==> e@ == "bitmap_size and items_count must be greater than 0"@,
    {
        if bitmap_size == 0 || items_count == 0 {
            return Err("bitmap_size and items_count must be greater than 0");
        }
        Ok(())
    }

    /// Create a new, empty bloom filter with a bitmap of `bitmap_size` bytes, `k_num` hash
    /// functions and the hash seed `seed`.
    pub fn new_with_seed_and_k_num(bitmap_size: usize, k_num: u32, seed: &[u8; 32]) -> (r: Result<
        Self,
        &'static str,
    >)
        requires
            bitmap_size <= usize::MAX - HEADER_SIZE,
            bitmap_size <= u64::MAX / 8,
        ensures
            k_num == 0 ==> (r matches Err(e) && e@ == "Invalid number of keys"@),
            k_num > 0 && bitmap_size == 0 ==> (r matches Err(e) && e@ == "Bitmap cannot be empty"@),
            k_num > 0 && bitmap_size > 0 ==> r is Ok,
            r matches Ok(b) ==> {
                &&& b.wf()
                &&& b.header_agrees()
                &&& b.serialized() == spec_new_storage(bitmap_size, k_num, seed@)
                &&& b.bit_count() == 8 * bitmap_size
                &&& b.hash_count() == k_num
                &&& b.seed_bytes() == seed@
                &&& all_clear(b.bits())
            },
    {
        proof {
            lemma_new_storage_parses(bitmap_size, k_num, seed@);
        }
        Self::from_storage(OwnedStorage::new(bitmap_size, k_num, seed))
    }

    /// Create a new, empty bloom filter with a bitmap of `bitmap_size` bytes and `k_num`
    /// hash functions, seeded with random bytes from the operating system.
    pub fn new_with_k_num(bitmap_size: usize, k_num: u32) -> (r: Result<Self, &'static str>)
        requires
            bitmap_size <= usize::MAX - HEADER_SIZE,
            bitmap_size <= u64::MAX / 8,
        ensures
            match r {
                Ok(b) => {
                    &&& k_num > 0 && bitmap_size > 0
                    &&& b.wf()
                    &&& b.header_agrees()
                    &&& b.serialized() == spec_new_storage(bitmap_size, k_num, b.seed_bytes())
                    &&& b.bit_count() == 8 * bitmap_size
                    &&& b.hash_count() == k_num
                    &&& all_clear(b.bits())
                },
                Err(e) => {
                    ||| e@ == "Could not generate random seed"@
                    ||| (k_num == 0 && e@ == "Invalid number of keys"@)
                    ||| (k_num > 0 && bitmap_size == 0 && e@ == "Bitmap cannot be empty"@)
                },
            },
    {
        Self::new_with_seed_outcome(bitmap_size, k_num, random_seed())
    }

    /// What `new_with_k_num` does once the random source has answered: with a seed, the
    /// filter that `new_with_seed_and_k_num` builds from it; without one, the error
    /// "Could not generate random seed".
    pub fn new_with_seed_outcome(bitmap_size: usize, k_num: u32, seed: Option<[u8; 32]>) -> (r:
        Result<Self, &'static str>)
        requires
            bitmap_size <= usize::MAX - HEADER_SIZE,
            bitmap_size <= u64::MAX / 8,
        ensures
            seed is None ==> (r matches Err(e) && e@ == "Could not generate random seed"@),
            seed is Some ==> {
                let s = seed->0;
                &&& k_num == 0 ==> (r matches Err(e) && e@ == "Invalid number of keys"@)
                &&& k_num > 0 && bitmap_size == 0 ==> (r matches Err(e) && e@
                    == "Bitmap cannot be empty"@)
                &&& k_num > 0 && bitmap_size > 0 ==> r is Ok
                &&& r matches Ok(b) ==> {
                    &&& b.wf()
                    &&& b.header_agrees()
                    &&& b.serialized() == spec_new_storage(bitmap_size, k_num, s@)
                    &&& b.bit_count() == 8 * bitmap_size
                    &&& b.hash_count() == k_num
                    &&& b.seed_bytes() == s@
                    &&& all_clear(b.bits())
                }
            },
    {
        match seed {
            Some(seed) => Self::new_with_seed_and_k_num(bitmap_size, k_num, &seed),
            None => Err("Could not generate random seed"),
        }
    }
}

impl<T: ?Sized, S: Storage> Bloom<T, S> {
    /// No false negatives: once the bits of a hash pair are set, the filter contains it.
    pub proof fn lemma_no_false_negatives(before: &Self, after: &Self, h0: u64, h1: u64)
        requires
            before.wf(),
            after.is_insertion_of(before, h0, h1),
        ensures
            after.contains(h0, h1),
    {
        assert forall|j: u32| j < after.k_num implies bit_is_set(
            after.bits(),
            #[trigger] bit_position(after.bitmap_bits, h0, h1, j),
        ) by {
            let p = bit_position(after.bitmap_bits, h0, h1, j);
            assert(selected(after.bitmap_bits, after.k_num, h0, h1, p));
        }
    }

    /// Inserting keeps every hash pair that the filter already contained.
    pub proof fn lemma_insertion_keeps_members(
        before: &Self,
        after: &Self,
        h0: u64,
        h1: u64,
        g0: u64,
        g1: u64,
    )
        requires
            before.wf(),
            after.is_insertion_of(before, h0, h1),
            before.contains(g0, g1),
        ensures
            after.contains(g0, g1),
    {
        assert forall|j: u32| j < after.k_num implies bit_is_set(
            after.bits(),
            #[trigger] bit_position(after.bitmap_bits, g0, g1, j),
        ) by {
            assert(bit_is_set(before.bits(), bit_position(before.bitmap_bits, g0, g1, j)));
        }
    }

    /// Inserting a hash pair that the filter already contains leaves its bytes unchanged.
    pub proof fn lemma_insertion_of_member_changes_nothing(
        before: &Self,
        after: &Self,
        h0: u64,
        h1: u64,
    )
        requires
            before.wf(),
            after.is_insertion_of(before, h0, h1),
            before.contains(h0, h1),
        ensures
            after.serialized() == before.serialized(),
    {
        let ob = before.bits();
        let nb = after.bits();
        assert forall|i: int| 0 <= i < 8 * ob.len() implies (bit_is_set(ob, i) <==> bit_is_set(
            nb,
            i,
        )) by {
            if selected(before.bitmap_bits, before.k_num, h0, h1, i) {
                let j = choose|j: u32|
                    j < before.k_num && #[trigger] bit_position(before.bitmap_bits, h0, h1, j) == i;
                assert(bit_is_set(ob, bit_position(before.bitmap_bits, h0, h1, j)));
            }
        }
        lemma_bits_determine_bytes(ob, nb);
        let a = after.serialized();
        let b = before.serialized();
        assert(a.len() == b.len());
        assert forall|x: int| 0 <= x < a.len() implies a[x] == b[x] by {
            if x < HEADER_SIZE {
                assert(a[x] == a.subrange(0, HEADER_SIZE as int)[x]);
                assert(b[x] == b.subrange(0, HEADER_SIZE as int)[x]);
            } else {
                assert(a[x] == nb[x - HEADER_SIZE]);
                assert(b[x] == ob[x - HEADER_SIZE]);
            }
        }
        assert(a =~= b);
    }

    /// The order of two insertions does not matter: both orders give the same bytes.
    pub proof fn lemma_insertions_commute(
        start: &Self,
        mid1: &Self,
        end1: &Self,
        mid2: &Self,
        end2: &Self,
        h0: u64,
        h1: u64,
        g0: u64,
        g1: u64,
    )
        requires
            start.wf(),
            mid1.is_insertion_of(start, h0, h1),
            end1.is_insertion_of(mid1, g0, g1),
            mid2.is_insertion_of(start, g0, g1),
            end2.is_insertion_of(mid2, h0, h1),
        ensures
            end1.serialized() == end2.serialized(),
    {
        let a = end1.bits();
        let b = end2.bits();
        assert forall|i: int| 0 <= i < 8 * a.len() implies (bit_is_set(a, i) <==> bit_is_set(
            b,
            i,
        )) by {
            assert(bit_is_set(a, i) <==> (bit_is_set(start.bits(), i) || selected(
                start.bitmap_bits,
                start.k_num,
                h0,
                h1,
                i,
            ) || selected(start.bitmap_bits, start.k_num, g0, g1, i)));
        }
        lemma_bits_determine_bytes(a, b);
        let x = end1.serialized();
        let y = end2.serialized();
        assert forall|n: int| 0 <= n < x.len() implies x[n] == y[n] by {
            if n < HEADER_SIZE {
                assert(x[n] == x.subrange(0, HEADER_SIZE as int)[n]);
                assert(y[n] == y.subrange(0, HEADER_SIZE as int)[n]);
                assert(x.subrange(0, HEADER_SIZE as int) == start.serialized().subrange(0, HEADER_SIZE as int));
            } else {
                assert(x[n] == a[n - HEADER_SIZE]);
                assert(y[n] == b[n - HEADER_SIZE]);
            }
        }
        assert(x =~= y);
    }

    /// An empty filter (every bit clear) contains no hash pair.
    pub proof fn lemma_empty_contains_nothing(b: &Self, h0: u64, h1: u64)
        requires
            b.wf(),
            all_clear(b.bits()),
        ensures
            !b.contains(h0, h1),
    {
        let p = bit_position(b.bitmap_bits, h0, h1, 0);
        assert(0 <= p < 8 * b.bits().len());
        lemma_constant_bytes((p % 8) as u8);
        assert(b.bits()[p / 8] == 0);
        assert(!bit_is_set(b.bits(), p));
    }

    /// After `clear`, the filter is empty and contains no hash pair.
    pub proof fn lemma_cleared_contains_nothing(before: &Self, after: &Self, h0: u64, h1: u64)
        requires
            before.wf(),
            after.is_refill_of(before, 0u8),
        ensures
            all_clear(after.bits()),
            !after.contains(h0, h1),
    {
        Self::lemma_empty_contains_nothing(after, h0, h1);
    }

    /// After `fill`, the filter contains every hash pair.
    pub proof fn lemma_filled_contains_everything(before: &Self, after: &Self, h0: u64, h1: u64)
        requires
            before.wf(),
            after.is_refill_of(before, 0xffu8),
        ensures
            after.contains(h0, h1),
    {
        assert forall|j: u32| j < after.k_num implies bit_is_set(
            after.bits(),
            #[trigger] bit_position(after.bitmap_bits, h0, h1, j),
        ) by {
            let p = bit_position(after.bitmap_bits, h0, h1, j);
            lemma_constant_bytes((p % 8) as u8);
            assert(after.bits()[p / 8] == 0xffu8);
        }
    }

    /// Loading the bytes of a filter gives a filter with the same parameters that contains
    /// the same hash pairs.
    pub proof fn lemma_reload_preserves_membership(b: &Self, c: &Self, h0: u64, h1: u64)
        requires
            b.wf(),
            b.header_agrees(),
            c.serialized() == b.serialized(),
            spec_parse(c.serialized()) == Ok::<_, Seq<char>>(
                (c.bit_count(), c.hash_count(), c.seed_bytes()),
            ),
        ensures
            c.bit_count() == b.bit_count(),
            c.hash_count() == b.hash_count(),
            c.seed_bytes() == b.seed_bytes(),
            c.contains(h0, h1) == b.contains(h0, h1),
    {
    }
}

} // verus!
