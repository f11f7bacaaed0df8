//! Inspection and shrink planning for a GPT-partitioned disk image.
//!
//! The library parses the tabular output of an external partition-inspection
//! tool, derives the highest end sector across all partitions, computes the
//! minimal image size that keeps every partition plus room for a secondary
//! GPT, and drives a two-attempt resize (a modern capability flag first, then
//! a fallback without it).  Running the external tools themselves is left to
//! the caller; everything here is pure computation over their output.

pub mod error;
pub mod num;
pub mod planner;
pub mod reader;
pub mod scanner;
pub mod shrink;
pub mod steps;
pub mod text;
