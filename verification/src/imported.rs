//! The types of other crates that values of this library carry, and what is
//! taken on trust about them.

use vstd::prelude::*;

verus! {

/// `solang_parser::pt::Loc`, a position in the source text. It is carried from
/// the source graph into the instructions and never inspected.
#[verifier::external_type_specification]
#[verifier::external_body]
pub struct ExLoc(solang_parser::pt::Loc);

/// `num_bigint::BigInt`, the value of a number literal. It is carried from the
/// source graph into the instructions and never inspected.
#[verifier::external_type_specification]
#[verifier::external_body]
pub struct ExBigInt(num_bigint::BigInt);

/// `<num_bigint::BigInt as Clone>::clone`, which copies the sign and the
/// digits: the copy is the same number as the value it was made of.
pub assume_specification[ <num_bigint::BigInt as Clone>::clone ](
    value: &num_bigint::BigInt,
) -> (copy: num_bigint::BigInt)
    ensures
        copy == *value,
;

} // verus!
