use vstd::prelude::*;

pub mod artifact;
pub mod component;
pub mod engine;
pub mod error;
pub mod field;
pub mod pipeline;
pub mod trace;

verus! {

/// Log2 of the number of rows in every trace this library builds.
pub const LOG_N_ROWS: u32 = 5;

/// Number of columns (sequence elements) in a recurrence trace.
pub const FIB_LEN: usize = 16;

} // verus!
