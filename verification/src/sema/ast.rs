//! Semantic types and declared parameters.

use vstd::prelude::*;

verus! {

/// The semantic type of a value.
#[derive(Clone, Copy, Debug, PartialEq, Eq, Structural)]
pub enum Type {
    /// A boolean.
    Bool,
    /// A signed integer of the given width in bits.
    Int(u16),
    /// An unsigned integer of the given width in bits.
    Uint(u16),
    /// A fixed number of bytes.
    Bytes(u8),
    /// An account address, payable or not.
    Address(bool),
}

/// A declared parameter or return value of a function.
#[derive(Debug, PartialEq, Eq)]
pub struct Parameter {
    pub name: String,
    pub ty: Type,
}

} // verus!
