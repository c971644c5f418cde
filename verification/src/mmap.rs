//! Storage over memory-mapped files. Mapping a file is done by the caller; these types
//! hold the mapping and give its bytes to the filters.
use crate::sealed::Sealed;
use crate::storage::{Storage, StorageMut};
use memmap2::{Mmap, MmapMut};
use vstd::prelude::*;
use vstd::slice::slice_to_vec;

verus! {

/// `memmap2::Mmap`, a read-only memory map.
#[verifier::external_type_specification]
#[verifier::external_body]
pub struct ExMmap(Mmap);

/// `memmap2::MmapMut`, a writable memory map.
#[verifier::external_type_specification]
#[verifier::external_body]
pub struct ExMmapMut(MmapMut);

/// The bytes that a read-only map shows.
pub uninterp spec fn mapped_bytes(m: Mmap) -> Seq<u8>;

/// The bytes that a writable map shows.
pub uninterp spec fn mapped_bytes_mut(m: MmapMut) -> Seq<u8>;

/// `<memmap2::Mmap as Deref>::deref`: the slice of the mapped bytes, which are the map's
/// contents. A map shows its file: another process that writes the file changes these bytes
/// under the same value, and that is not stated here.
#[verifier::external_body]
fn mmap_as_slice(m: &Mmap) -> (r: &[u8])
    ensures
        r@ == mapped_bytes(*m),
{
    &m[..]
}

/// `<memmap2::MmapMut as Deref>::deref`: the slice of the mapped bytes, which are the map's
/// contents (writes by another process to the file are not stated here).
#[verifier::external_body]
fn mmap_mut_as_slice(m: &MmapMut) -> (r: &[u8])
    ensures
        r@ == mapped_bytes_mut(*m),
{
    &m[..]
}

/// `<memmap2::MmapMut as DerefMut>::deref_mut`: the writable slice of the mapped bytes;
/// what is written through it is what the map then holds (writes by another process to
/// the file are not stated here).
#[verifier::external_body]
fn mmap_mut_as_mut_slice(m: &mut MmapMut) -> (r: &mut [u8])
    ensures
        r@ == mapped_bytes_mut(*old(m)),
        mapped_bytes_mut(*final(m)) == final(r)@,
{
    &mut m[..]
}

/// Read-only memory-mapped storage.
///
/// The map should be made with `PROT_READ | MAP_SHARED`. If the underlying file is
/// truncated while the map is alive, reading pages beyond the new file size causes
/// `SIGBUS`: the file must not be truncated for the lifetime of this value.
pub struct MmapStorage(Mmap);

impl Sealed for MmapStorage {}

impl Storage for MmapStorage {
    closed spec fn contents(&self) -> Seq<u8> {
        mapped_bytes(self.0)
    }

    fn bytes(&self) -> (r: &[u8]) {
        mmap_as_slice(&self.0)
    }
}

impl MmapStorage {
    /// Storage over the read-only map `mmap`.
    pub fn from_mmap(mmap: Mmap) -> (s: Self)
        ensures
            s.contents() == mapped_bytes(mmap),
    {
        MmapStorage(mmap)
    }

    /// Consumes the storage and returns a copy of its bytes.
    pub fn into_bytes(self) -> (bytes: Vec<u8>)
        ensures
            bytes@ == self.contents(),
    {
        slice_to_vec(self.bytes())
    }
}

/// Writable memory-mapped storage.
pub struct MmapMutStorage(MmapMut);

impl Sealed for MmapMutStorage {}

impl Storage for MmapMutStorage {
    closed spec fn contents(&self) -> Seq<u8> {
        mapped_bytes_mut(self.0)
    }

    fn bytes(&self) -> (r: &[u8]) {
        mmap_mut_as_slice(&self.0)
    }
}

impl StorageMut for MmapMutStorage {
    fn bytes_mut(&mut self) -> (r: &mut [u8]) {
        mmap_mut_as_mut_slice(&mut self.0)
    }
}

impl MmapMutStorage {
    /// Storage over the writable map `mmap`.
    pub fn from_mmap_mut(mmap: MmapMut) -> (s: Self)
        ensures
            s.contents() == mapped_bytes_mut(mmap),
    {
        MmapMutStorage(mmap)
    }

    /// The map, for flushing it to its file.
    pub fn mmap(&self) -> (m: &MmapMut)
        ensures
            mapped_bytes_mut(*m) == self.contents(),
    {
        &self.0
    }
}

} // verus!
