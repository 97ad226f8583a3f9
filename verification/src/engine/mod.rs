//! The trusted boundary: every call into the engine and the crates beside it.
//! Verus takes the contracts in these files as given.

pub mod analysis;
pub mod dates;
pub mod document;
pub mod fuzzy;
pub mod queries;
pub mod schema;
pub mod storage;
