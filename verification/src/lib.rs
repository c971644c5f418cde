//! A bloom filter whose operations are verified with Verus.
//!
//! The filter is kept as one byte sequence: a header (version, bitmap length, number of
//! hash functions, seed) followed by the bitmap, so that it can be saved and loaded as is.
pub mod bitmap;
pub mod bits;
pub mod bloom;
pub mod hash;
pub mod header;
pub mod mmap;
pub mod readonly;
mod sealed;
pub mod reexports;
pub mod storage;
pub mod text;

pub use bloom::Bloom;
pub use mmap::{MmapMutStorage, MmapStorage};
pub use readonly::ReadOnlyBloom;
pub use storage::{OwnedStorage, Storage, StorageMut};
use vstd::prelude::*;

verus! {

/// A read-only bloom filter backed by a memory-mapped file.
pub type MmapBloom<T> = Bloom<T, MmapStorage>;

} // verus!
