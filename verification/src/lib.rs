//! Memory-consistency engine for AIR arithmetic circuits.
//!
//! Circuit gadgets read and write typed values through symbolic pointers; the
//! memory layer folds every access's address, value and timestamp into one
//! extension-field digest and proves, with a log-derivative lookup argument,
//! that every read matches some prior write.

pub mod accumulate;
pub mod air;
pub mod blake2b;
pub mod blake2b_data;
pub mod builder;
pub mod cubic;
pub mod expression;
pub mod field;
pub mod lookup;
pub mod lookup_sums;
pub mod memory;
pub mod pointer;
pub mod register;
pub mod trace;
pub mod uint;
