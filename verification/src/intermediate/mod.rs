//! The three-address form: operands, instructions, blocks and the container
//! that holds the blocks of one function.

use crate::codegen::cfg::{ASTFunction, InternalCallTy};
use crate::sema::ast::{Parameter, Type};
use num_bigint::BigInt;
use solang_parser::pt::Loc;
use std::sync::Arc;
use vstd::prelude::*;

pub mod lemmas;
pub mod ssa;

verus! {

/// A typed reference to a value.
#[derive(Debug, PartialEq, Eq)]
pub enum Operand {
    /// A value with a name in the enclosing function.
    Variable { ty: Type, res: usize },
    /// A constant.
    Literal { ty: Type, value: BigInt },
    /// A value that a lowering step computed and that has no name. Its number
    /// is the position, in the sequence being built, of the instruction that
    /// assigns it.
    TempVar { ty: Type, res: usize },
}

/// The right-hand side of an assignment.
#[derive(Debug, PartialEq, Eq)]
pub enum Expr {
    /// The sum of two operands.
    Add { loc: Loc, ty: Type, left: Operand, right: Operand },
    /// An operand by itself.
    Operand { oper: Operand },
}

/// A three-address instruction.
#[allow(inconsistent_fields)]
#[derive(Debug, PartialEq, Eq)]
pub enum Inst {
    /// Assign the value of `expr` to `res`.
    Assign { loc: Loc, res: Operand, expr: Expr },
    /// Call `call` with `args` and bind what it returns to the variables `res`.
    Call { res: Vec<usize>, call: InternalCallTy, args: Vec<Expr> },
    /// Return the given values.
    Return { value: Vec<Expr> },
    /// Jump to the block with the given index.
    Branch { block: usize },
}

/// A named sequence of three-address instructions.
#[derive(Debug, PartialEq, Eq)]
pub struct ThreeAddressesBlock {
    pub name: String,
    pub insts: Vec<Inst>,
}

/// The three-address blocks of one function.
#[derive(Debug, PartialEq, Eq)]
pub struct StaticSingleAssignment {
    pub name: String,
    pub function_no: ASTFunction,
    pub params: Arc<Vec<Parameter>>,
    pub returns: Arc<Vec<Parameter>>,
    pub blocks: Vec<ThreeAddressesBlock>,
}

/// Why a lowering was abandoned.
#[derive(Clone, Copy, Debug, PartialEq, Eq, Structural)]
pub enum InternalError {
    /// An operand of an addition was lowered to a sequence that does not end
    /// in an assignment, so the addition has no value to take.
    MalformedExpression,
}

/// What a block is: its name and its instructions.
pub struct BlockModel {
    pub name: Seq<char>,
    pub insts: Seq<Inst>,
}

/// What a container is: the fields of the function and its blocks.
pub struct FunctionModel {
    pub name: Seq<char>,
    pub function_no: ASTFunction,
    pub params: Seq<Parameter>,
    pub returns: Seq<Parameter>,
    pub blocks: Seq<BlockModel>,
}

impl View for ThreeAddressesBlock {
    type V = BlockModel;

    open spec fn view(&self) -> BlockModel {
        BlockModel { name: self.name@, insts: self.insts@ }
    }
}

impl View for StaticSingleAssignment {
    type V = FunctionModel;

    open spec fn view(&self) -> FunctionModel {
        FunctionModel {
            name: self.name@,
            function_no: self.function_no,
            params: self.params@,
            returns: self.returns@,
            blocks: block_models(self.blocks@),
        }
    }
}

/// What each of `blocks` is, in the same order.
pub open spec fn block_models(blocks: Seq<ThreeAddressesBlock>) -> Seq<BlockModel> {
    Seq::new(blocks.len(), |i: int| blocks[i]@)
}

impl Operand {
    /// A fresh unnamed value of type `ty`, numbered `res`.
    pub(crate) fn new_temp_var(ty: Type, res: usize) -> (operand: Operand)
        ensures
            operand == (Operand::TempVar { ty, res }),
    {
        Operand::TempVar { res, ty }
    }
}

impl Inst {
    /// The operand that the instruction assigns, where it is an assignment.
    pub open spec fn destination(self) -> Option<Operand> {
        match self {
            Inst::Assign { res, .. } => Some(res),
            _ => None,
        }
    }
}

impl Clone for Operand {
    fn clone(&self) -> (copy: Self)
        ensures
            copy == *self,
    {
        match self {
            Operand::Variable { ty, res } => Operand::Variable { ty: *ty, res: *res },
            Operand::Literal { ty, value } => Operand::Literal { ty: *ty, value: value.clone() },
            Operand::TempVar { ty, res } => Operand::TempVar { ty: *ty, res: *res },
        }
    }
}

impl Clone for Expr {
    fn clone(&self) -> (copy: Self)
        ensures
            copy == *self,
    {
        match self {
            Expr::Add { loc, ty, left, right } => Expr::Add {
                loc: *loc,
                ty: *ty,
                left: left.clone(),
                right: right.clone(),
            },
            Expr::Operand { oper } => Expr::Operand { oper: oper.clone() },
        }
    }
}

} // verus!
