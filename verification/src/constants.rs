//! Limits that bound memory and I/O.

use vstd::prelude::*;

verus! {

/// Number of lines kept in memory, and shown after filtering.
pub const MAX_LINES: usize = 150;

/// Largest number of bytes kept of a single line.
pub const MAX_LINE_LEN: usize = 65536;

/// Largest number of bytes taken in by one poll in live mode.
pub const POLL_READ_CAP: usize = 524288;

/// Files larger than this are loaded from their last `TAIL_READ_SIZE` bytes only.
pub const TAIL_READ_SIZE: u64 = 2097152;

} // verus!
