//! Memory for variable-length data: the arena and the cursors into it.

pub mod arena;
pub mod buffer;
