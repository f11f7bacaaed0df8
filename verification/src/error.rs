use vstd::prelude::*;

verus! {

/// The failure conditions of the inspection and shrink steps.
///
/// Each parsing failure carries the offending text verbatim so that a caller
/// can report exactly what the external tool printed.
#[derive(Debug, Clone, PartialEq, Eq)]
pub enum StepError {
    /// No line of the inspected output carries the requested row label.
    RowNotFound,
    /// The labelled row exists but has fewer columns than requested.
    ColumnOutOfRange,
    /// A partition row does not have three leading numeric columns.
    MalformedRow { line: String },
    /// A value that had to be numeric was not a decimal `u64` numeral.
    MalformedNumber { text: String },
    /// The partition listing holds no partition rows at all.
    NoPartitionsFound,
    /// Both the flagged and the fallback resize attempt failed.
    ShrinkFailed { image_path: String, new_disk_size_bytes: u64 },
}

} // verus!
