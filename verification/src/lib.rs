//! Lowering of typed expression trees into three-address instructions, and of
//! a control-flow graph of such trees into blocks of those instructions.

pub mod codegen;
pub mod imported;
pub mod intermediate;
pub mod sema;
