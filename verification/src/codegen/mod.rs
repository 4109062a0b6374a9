//! The high-level form that the lowering consumes.

pub mod cfg;
