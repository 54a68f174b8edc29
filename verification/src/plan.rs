//! What the planner hands to the engine.

pub mod expr;
