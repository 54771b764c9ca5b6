//! The error values a tree reports instead of panicking.

use vstd::prelude::*;

verus! {

/// Why a tree operation was refused.
#[derive(Clone, Debug)]
pub enum SegmentTreeError {
    /// Construction was attempted from an empty input.
    EmptyData,
    /// A query index, after ordering the endpoints, lies outside the input.
    InvalidRange,
    /// An update position lies outside the input.
    IndexOutBounds,
}

impl SegmentTreeError {
    /// The name of the error kind, for callers that print errors.
    pub fn description(&self) -> (s: &'static str)
        ensures
            self is EmptyData ==> s@ == "EmptyData"@,
            self is InvalidRange ==> s@ == "InvalidRange"@,
            self is IndexOutBounds ==> s@ == "IndexOutBounds"@,
    {
        match self {
            SegmentTreeError::EmptyData => "EmptyData",
            SegmentTreeError::InvalidRange => "InvalidRange",
            SegmentTreeError::IndexOutBounds => "IndexOutBounds",
        }
    }
}

} // verus!
