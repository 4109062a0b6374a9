//! What semantic analysis hands to code generation.

pub mod ast;
