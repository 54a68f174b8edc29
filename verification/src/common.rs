//! What the catalog is made of: the types that a plugin may describe, the
//! signatures and bodies of functions, and the registries that hold them.

pub mod func;
pub mod plugin;
pub mod types;
