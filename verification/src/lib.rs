//! In-memory columnar execution core of a query engine.
//!
//! * `memutil`: the arena that variable-length values are allocated from,
//!   and the cursors that read and write what it hands out.
//! * `codec`: how the fixed-width scalar types lie in a buffer.
//! * `rows`: columns of a fixed number of rows, pages of columns, and row
//!   blocks.
//! * `eval`: the numbers and the vectorized kernels that compute on columns.
//! * `common`: the catalog of types and functions, filled by plugins.
//! * `sql`: the plugin of the SQL types.
//! * `plan`: expression trees.
//! * `exec`: the compiler from expressions to evaluators, the processor that
//!   runs them over pages, the scanners of delimited text, and the contract of
//!   an executor with its driver.
//! * `types`, `schema`: the data types of columns, and schemas.
//!
//! Every executable function is verified against its contract. A contract is
//! stated over plain mathematical values: sequences of bytes, numbers, and
//! the model of each data structure.

pub mod codec;
pub mod common;
pub mod constant;
pub mod err;
pub mod eval;
pub mod exec;
pub mod memutil;
pub mod plan;
pub mod rows;
pub mod schema;
pub mod sql;
pub mod text;
pub mod types;
