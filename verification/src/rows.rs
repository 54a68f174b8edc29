//! Batches of rows, column by column.

pub mod minipage;
pub mod page;
pub mod vrows;
