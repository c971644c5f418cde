//! The outside crates whose types and functions this library's API hands out or relies on.
pub use getrandom;
pub use serde;
pub use siphasher;
