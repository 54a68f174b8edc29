//! Sizes fixed for the whole engine.

use vstd::prelude::*;

verus! {

/// Number of rows that one batch holds: the unit of vectorized processing.
pub const VECTOR_SIZE: usize = 1024;

/// Boundary, in bytes, to which column buffers are aligned.
pub const ALIGNED_SIZE: usize = 16;

/// Bytes that the descriptor of a variable-length value takes in a column:
/// the chunk and the offset of its first byte, and its length, eight bytes
/// each.
pub const TEXT_SIZE: usize = 24;

} // verus!
