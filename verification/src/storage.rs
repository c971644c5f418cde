//! Where the bytes of a filter (header and bitmap) are kept.
use crate::header::{
    bitmap_size_fits, set_k_num, set_len_bytes, set_seed, set_version, spec_header, spec_parse,
    stored_bits, HEADER_SIZE, VERSION,
};
use vstd::bytes::{spec_u32_to_le_bytes, spec_u64_to_le_bytes};
use crate::sealed::Sealed;
use vstd::prelude::*;

verus! {

/// A storage backend: it gives read access to the bytes of a filter (header and bitmap).
/// It is sealed: only this crate's storages implement it.
pub trait Storage: Sealed {
    /// The bytes held by the storage.
    spec fn contents(&self) -> Seq<u8>;

    /// View the raw bytes (header + bitmap).
    fn bytes(&self) -> (r: &[u8])
        ensures
            r@ == self.contents(),
    ;
}

/// A storage backend whose bytes can be changed in place.
pub trait StorageMut: Storage {
    /// View the raw bytes mutably; what is written through the slice is what the storage
    /// then holds.
    fn bytes_mut(&mut self) -> (r: &mut [u8])
        ensures
            r@ == old(self).contents(),
            final(self).contents() == final(r)@,
    ;
}

/// The bytes of a fresh filter: the header for `len_bytes` bytes of bitmap, `k_num` hash
/// functions and `seed`, followed by an all-zero bitmap of `len_bytes` bytes.
pub open spec fn spec_new_storage(len_bytes: usize, k_num: u32, seed: Seq<u8>) -> Seq<u8> {
    spec_header(len_bytes as u64, k_num, seed) + Seq::new(len_bytes as nat, |i: int| 0u8)
}

/// Parsing the bytes of a fresh filter gives back what was written into its header: the
/// bitmap size (in bits), the hash count and the seed. A zero hash count or an empty bitmap
/// are refused, in that order.
pub proof fn lemma_new_storage_parses(len_bytes: usize, k_num: u32, seed: Seq<u8>)
    requires
        seed.len() == 32,
        len_bytes <= usize::MAX - HEADER_SIZE,
        len_bytes <= u64::MAX / 8,
    ensures
        bitmap_size_fits(spec_new_storage(len_bytes, k_num, seed)),
        stored_bits(spec_new_storage(len_bytes, k_num, seed)) == Seq::new(len_bytes as nat, |i: int| 0u8),
        spec_parse(spec_new_storage(len_bytes, k_num, seed)) == (if k_num == 0 {
            Err::<(u64, u32, Seq<u8>), Seq<char>>("Invalid number of keys"@)
        } else if len_bytes == 0 {
            Err("Bitmap cannot be empty"@)
        } else {
            Ok(((8 * len_bytes) as u64, k_num, seed))
        }),
{
    vstd::bytes::lemma_auto_spec_u64_to_from_le_bytes();
    vstd::bytes::lemma_auto_spec_u32_to_from_le_bytes();
    let b = spec_new_storage(len_bytes, k_num, seed);
    let h = spec_header(len_bytes as u64, k_num, seed);
    assert(h.len() == HEADER_SIZE);
    assert(b.subrange(1, 9) =~= spec_u64_to_le_bytes(len_bytes as u64));
    assert(b.subrange(9, 13) =~= spec_u32_to_le_bytes(k_num));
    assert(b.subrange(13, 45) =~= seed);
    assert(b[0] == VERSION);
    assert(stored_bits(b) =~= Seq::new(len_bytes as nat, |i: int| 0u8));
}

/// Builds the bytes of a fresh filter: header, then `len_bytes` zero bytes of bitmap.
pub fn new_storage(len_bytes: usize, k_num: u32, seed: &[u8; 32]) -> (bytes: Vec<u8>)
    requires
        len_bytes <= usize::MAX - HEADER_SIZE,
    ensures
        bytes@ == spec_new_storage(len_bytes, k_num, seed@),
{
    let mut bytes: Vec<u8> = vec![0; HEADER_SIZE + len_bytes];
    let ghost zeros = bytes@;
    {
        let header = bytes.as_mut_slice();
        set_version(header, VERSION);
        set_len_bytes(header, len_bytes as u64);
        set_k_num(header, k_num);
        set_seed(header, seed);
    }
    proof {
        vstd::bytes::lemma_auto_spec_u64_to_from_le_bytes();
        vstd::bytes::lemma_auto_spec_u32_to_from_le_bytes();
        let expected = spec_new_storage(len_bytes, k_num, seed@);
        assert(bytes@.len() == expected.len());
        assert forall|i: int| 0 <= i < bytes@.len() implies bytes@[i] == expected[i] by {
            if i >= HEADER_SIZE {
                assert(bytes@[i] == zeros[i]);
            }
        }
        assert(bytes@ =~= expected);
    }
    bytes
}

/// Heap-allocated storage. This is the default storage for `Bloom`.
pub struct OwnedStorage(pub(crate) Vec<u8>);

impl Sealed for OwnedStorage {}

impl Storage for OwnedStorage {
    closed spec fn contents(&self) -> Seq<u8> {
        self.0@
    }

    fn bytes(&self) -> (r: &[u8]) {
        self.0.as_slice()
    }
}

impl StorageMut for OwnedStorage {
    fn bytes_mut(&mut self) -> (r: &mut [u8]) {
        self.0.as_mut_slice()
    }
}

impl OwnedStorage {
    /// Storage for a fresh filter: header, then `len_bytes` zero bytes of bitmap.
    pub fn new(len_bytes: usize, k_num: u32, seed: &[u8; 32]) -> (s: Self)
        requires
            len_bytes <= usize::MAX - HEADER_SIZE,
        ensures
            s.contents() == spec_new_storage(len_bytes, k_num, seed@),
    {
        OwnedStorage(new_storage(len_bytes, k_num, seed))
    }

    /// Storage that holds `bytes` as they are.
    pub fn from_vec(bytes: Vec<u8>) -> (s: Self)
        ensures
            s.contents() == bytes@,
    {
        OwnedStorage(bytes)
    }

    /// The vector that holds the bytes.
    pub closed spec fn vec(&self) -> Vec<u8> {
        self.0
    }

    /// The vector holds exactly the storage's bytes.
    pub proof fn lemma_vec_holds_contents(&self)
        ensures
            self.vec()@ == self.contents(),
    {
    }

    /// Consumes the storage and returns its bytes.
    pub fn into_bytes(self) -> (bytes: Vec<u8>)
        ensures
            bytes@ == self.contents(),
            bytes == self.vec(),
    {
        self.0
    }
}

} // verus!
