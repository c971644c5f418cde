//! The marker that keeps `Storage` from being implemented outside this crate.
use vstd::prelude::*;

verus! {

/// Marker that every storage backend carries. It is public, but its module is not, so only
/// this crate's types can have it.
pub trait Sealed {}

} // verus!
