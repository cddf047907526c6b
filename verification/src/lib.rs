//! Query-predicate evaluation core of a vector-database query pipeline.
//!
//! Given a boolean predicate over record metadata and documents, and
//! optionally a whitelist of user identifiers, the library produces two
//! symbolic sets of internal offset identifiers: one for records living in
//! an uncommitted in-memory write log, one for records living in a
//! committed segment. Offsets touched by the log are subtracted from the
//! segment side, so each logical record is counted exactly once and the
//! log always wins where both have an opinion.

pub mod assoc;
pub mod bitmap;
pub mod config;
pub mod errors;
pub mod expression;
pub mod filter;
pub mod index;
pub mod logview;
pub mod pattern;
pub mod provider;
pub mod segment;
pub mod signed;
pub mod text;
pub mod values;

pub use signed::SignedRoaringBitmap;

use vstd::prelude::*;

verus! {

/// A record's internal offset identifier: a 32-bit value assigned by the
/// write path to every live record.
pub type OffsetId = u32;

} // verus!
