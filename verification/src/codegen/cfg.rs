//! The source control-flow graph: blocks of statements over expression trees.

use crate::sema::ast::Type;
use num_bigint::BigInt;
use solang_parser::pt::Loc;
use vstd::prelude::*;

verus! {

/// Which source function a graph was built from. The lowering copies this
/// token and never interprets it.
#[derive(Clone, Copy, Debug, PartialEq, Eq, Structural)]
pub enum ASTFunction {
    SolidityFunction(usize),
    YulFunction(usize),
    /// No source function: the graph was made by the compiler itself.
    NoFunction,
}

/// A typed expression tree.
#[allow(inconsistent_fields)]
#[derive(Debug, PartialEq, Eq)]
pub enum Expression {
    /// An integer constant.
    NumberLiteral { loc: Loc, ty: Type, value: BigInt },
    /// A boolean constant.
    BoolLiteral { loc: Loc, value: bool },
    /// A reference to a declared variable.
    Variable { loc: Loc, ty: Type, var_no: usize },
    /// The sum of two expressions. `overflowing` says whether the sum may
    /// wrap; the lowering does not consult it.
    Add { loc: Loc, ty: Type, overflowing: bool, left: Box<Expression>, right: Box<Expression> },
    /// The difference of two expressions.
    Subtract {
        loc: Loc,
        ty: Type,
        overflowing: bool,
        left: Box<Expression>,
        right: Box<Expression>,
    },
}

/// How a call names its callee.
#[derive(Debug, PartialEq, Eq)]
pub enum InternalCallTy {
    Static { cfg_no: usize },
    Dynamic(Expression),
    Builtin { ast_func_no: usize },
}

/// A statement of a source block.
#[derive(Debug, PartialEq, Eq)]
pub enum Instr {
    /// Assign the value of `expr` to the variable `res`.
    Assign { loc: Loc, res: usize, expr: Expression },
    /// Return the given values.
    Return { value: Vec<Expression> },
    /// Jump to a block.
    Branch { block: usize },
    /// Jump to one of two blocks.
    BranchCond { cond: Expression, true_block: usize, false_block: usize },
}

/// A named sequence of statements.
#[derive(Debug, PartialEq, Eq)]
pub struct BasicBlock {
    pub name: String,
    pub instr: Vec<Instr>,
}

/// The blocks of one function, in order.
#[derive(Debug, PartialEq, Eq)]
pub struct ControlFlowGraph {
    pub name: String,
    pub function_no: ASTFunction,
    pub blocks: Vec<BasicBlock>,
}

impl Expression {
    /// The type that the expression is declared to have.
    pub open spec fn declared_type(self) -> Type {
        match self {
            Expression::NumberLiteral { ty, .. } => ty,
            Expression::BoolLiteral { .. } => Type::Bool,
            Expression::Variable { ty, .. } => ty,
            Expression::Add { ty, .. } => ty,
            Expression::Subtract { ty, .. } => ty,
        }
    }
}

} // verus!
