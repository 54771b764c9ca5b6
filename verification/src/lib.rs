//! Static segment trees over `i64` values, supporting range sum, range
//! maximum and range minimum queries with single-position updates.
//!
//! A tree is built once from a slice of values and afterwards mutated only
//! through point updates.  Queries and updates are valid on positions below
//! the original input length; violations are reported as error values.

pub mod agg;
pub mod errors;
pub mod laws;
mod layout;
mod ops;
pub mod rmaxq;
pub mod rminq;
pub mod rsq;
pub mod sentinels;

pub use errors::SegmentTreeError;
pub use rmaxq::RMaxQ;
pub use rminq::RMinQ;
pub use rsq::RSQ;
pub use sentinels::MaxValue;
pub use sentinels::MinValue;
