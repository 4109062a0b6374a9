//! Lowering of expressions, blocks and whole graphs.

use crate::codegen::cfg::{ASTFunction, BasicBlock, ControlFlowGraph, Expression, Instr};
use crate::intermediate::lemmas::{
    lemma_blocks_correspond, lemma_blocks_malformed_exactly, lemma_last_has_declared_type,
    lemma_outcome, lemma_statements_malformed_exactly, lemma_temporaries_numbered,
};
use crate::intermediate::{
    block_models, BlockModel, Expr, FunctionModel, Inst, InternalError, Operand,
    StaticSingleAssignment, ThreeAddressesBlock,
};
use crate::sema::ast::{Parameter, Type};
use num_bigint::BigInt;
use solang_parser::pt::Loc;
use std::sync::Arc;
use vstd::prelude::*;

verus! {

/// Which operand of an addition is the literal that is folded into it.
#[derive(Clone, Copy, Debug, PartialEq, Eq, Structural)]
pub enum Side {
    Left,
    Right,
}

/// The addition of the literal `value` and the variable numbered `res`, both of
/// type `ty`, with the literal on the given side.
pub open spec fn literal_sum(side: Side, value: BigInt, loc: Loc, ty: Type, res: usize) -> Expr {
    match side {
        Side::Left => Expr::Add {
            loc,
            ty,
            left: Operand::Literal { ty, value },
            right: Operand::Variable { res, ty },
        },
        Side::Right => Expr::Add {
            loc,
            ty,
            left: Operand::Variable { res, ty },
            right: Operand::Literal { ty, value },
        },
    }
}

/// The instructions of an addition of type `ty` with a literal operand, given
/// the instructions `operand` of the other operand and the number `next` of
/// the next temporary.
///
/// Where `operand` ends in an assignment to a variable or a temporary, one
/// assignment follows it: a new temporary of type `ty` takes the sum of the
/// literal and of that value. The sum and the new assignment have the
/// location of that assignment, and the sum and its operands the type of that
/// value. Otherwise `operand` stands as it is and no sum is formed.
pub open spec fn folded(side: Side, value: BigInt, ty: Type, operand: Seq<Inst>, next: usize) -> Seq<
    Inst,
> {
    if operand.len() > 0 {
        match operand.last() {
            Inst::Assign { loc, res: Operand::TempVar { res, ty: of }, .. } => operand.push(
                Inst::Assign {
                    loc,
                    res: Operand::TempVar { ty, res: next },
                    expr: literal_sum(side, value, loc, of, res),
                },
            ),
            Inst::Assign { loc, res: Operand::Variable { res, ty: of }, .. } => operand.push(
                Inst::Assign {
                    loc,
                    res: Operand::TempVar { ty, res: next },
                    expr: literal_sum(side, value, loc, of, res),
                },
            ),
            _ => operand,
        }
    } else {
        operand
    }
}

/// The instructions of an addition of which neither operand is a literal,
/// given the instructions of its operands and the number `next` of the next
/// temporary.
///
/// Both sequences must end in an assignment. Then the result is `left`, then
/// `right`, then one assignment of the sum of their two destinations to a new
/// temporary of type `ty`.
pub open spec fn joined(loc: Loc, ty: Type, left: Seq<Inst>, right: Seq<Inst>, next: usize) -> Result<
    Seq<Inst>,
    InternalError,
> {
    if left.len() > 0 && right.len() > 0 {
        match (left.last(), right.last()) {
            (Inst::Assign { res: left_operand, .. }, Inst::Assign { res: right_operand, .. }) => Ok(
                (left + right).push(
                    Inst::Assign {
                        loc,
                        res: Operand::TempVar { ty, res: next },
                        expr: Expr::Add { loc, ty, left: left_operand, right: right_operand },
                    },
                ),
            ),
            _ => Err(InternalError::MalformedExpression),
        }
    } else {
        Err(InternalError::MalformedExpression)
    }
}

/// The instructions that compute `expression`, where `base` instructions stand
/// before them in the sequence being built: the instruction at position `i` of
/// the result assigns the temporary numbered `base + i`.
///
/// - A number literal is one assignment of the literal to a new temporary.
/// - An addition whose left operand is a number literal is the instructions of
///   the right operand with the literal folded in on the left (see `folded`).
/// - Otherwise, an addition whose right operand is a number literal is the
///   instructions of the left operand with the literal folded in on the right.
/// - Any other addition joins the instructions of its two operands (see
///   `joined`), and is malformed where either of them ends in no assignment.
/// - Every other expression has no instructions.
pub open spec fn lowered(expression: Expression, base: nat) -> Result<Seq<Inst>, InternalError>
    decreases expression,
{
    match expression {
        Expression::NumberLiteral { loc, ty, value } => Ok(
            seq![
                Inst::Assign {
                    loc,
                    res: Operand::TempVar { ty, res: base as usize },
                    expr: Expr::Operand { oper: Operand::Literal { ty, value } },
                },
            ],
        ),
        Expression::Add { loc, ty, left, right, .. } => {
            if let Expression::NumberLiteral { value, .. } = *left {
                match lowered(*right, base) {
                    Ok(operand) => Ok(
                        folded(Side::Left, value, ty, operand, (base + operand.len()) as usize),
                    ),
                    Err(e) => Err(e),
                }
            } else if let Expression::NumberLiteral { value, .. } = *right {
                match lowered(*left, base) {
                    Ok(operand) => Ok(
                        folded(Side::Right, value, ty, operand, (base + operand.len()) as usize),
                    ),
                    Err(e) => Err(e),
                }
            } else {
                match lowered(*left, base) {
                    Ok(l) => match lowered(*right, base + l.len()) {
                        Ok(r) => joined(loc, ty, l, r, (base + l.len() + r.len()) as usize),
                        Err(e) => Err(e),
                    },
                    Err(e) => Err(e),
                }
            }
        },
        _ => Ok(Seq::empty()),
    }
}

/// The targets of the jumps in `insts`, in the order of the instructions.
pub open spec fn branch_targets(insts: Seq<Inst>) -> Seq<usize>
    decreases insts.len(),
{
    if insts.len() == 0 {
        Seq::empty()
    } else {
        match insts.last() {
            Inst::Branch { block } => branch_targets(insts.drop_last()).push(block),
            _ => branch_targets(insts.drop_last()),
        }
    }
}

/// Whether `inst` assigns the temporary numbered `res`.
pub open spec fn assigns_temporary(inst: Inst, res: usize) -> bool {
    inst matches Inst::Assign { res: Operand::TempVar { res: r, .. }, .. } && r == res
}

/// Whether the lowering of `expression` gives any instructions: a number
/// literal does, an addition with a literal operand does where its other
/// operand does, any other addition where both operands do, and no other
/// expression does.
pub open spec fn gives_value(expression: Expression) -> bool
    decreases expression,
{
    match expression {
        Expression::NumberLiteral { .. } => true,
        Expression::Add { left, right, .. } => {
            if *left is NumberLiteral {
                gives_value(*right)
            } else if *right is NumberLiteral {
                gives_value(*left)
            } else {
                gives_value(*left) && gives_value(*right)
            }
        },
        _ => false,
    }
}

/// Whether `expression` is malformed: it is an addition without a literal
/// operand of which one operand gives no value, or an addition with a literal
/// operand whose other operand is malformed.
pub open spec fn malformed(expression: Expression) -> bool
    decreases expression,
{
    match expression {
        Expression::Add { left, right, .. } => {
            if *left is NumberLiteral {
                malformed(*right)
            } else if *right is NumberLiteral {
                malformed(*left)
            } else {
                !gives_value(*left) || !gives_value(*right)
            }
        },
        _ => false,
    }
}

/// Whether `statement` is an assignment of a malformed expression.
pub open spec fn statement_malformed(statement: Instr) -> bool {
    statement matches Instr::Assign { expr, .. } && malformed(expr)
}

/// Whether one of the statements of `block` assigns a malformed expression.
pub open spec fn block_malformed(block: BasicBlock) -> bool {
    exists|i: int| 0 <= i < block.instr@.len() && statement_malformed(#[trigger] block.instr@[i])
}

/// The instructions of one statement, given the instructions `insts` of its
/// expression and the variable `dest` that it assigns.
///
/// Where `insts` ends in an assignment to a temporary, that assignment is made
/// to the variable `dest` instead, with the temporary's type; the instructions
/// before it stand. Otherwise the statement has no instructions.
pub open spec fn rebound(insts: Seq<Inst>, dest: usize) -> Seq<Inst> {
    if insts.len() > 0 {
        match insts.last() {
            Inst::Assign { loc, res: Operand::TempVar { ty, .. }, expr } => insts.drop_last().push(
                Inst::Assign { loc, res: Operand::Variable { res: dest, ty }, expr },
            ),
            _ => Seq::empty(),
        }
    } else {
        Seq::empty()
    }
}

/// The instructions of a sequence of statements: those of each assignment, in
/// order, its temporaries numbered by their position in the whole sequence.
/// A statement of another kind has none. One malformed expression makes the
/// whole sequence malformed.
pub open spec fn lowered_statements(statements: Seq<Instr>) -> Result<Seq<Inst>, InternalError>
    decreases statements.len(),
{
    if statements.len() == 0 {
        Ok(Seq::empty())
    } else {
        match lowered_statements(statements.drop_last()) {
            Ok(before) => match statements.last() {
                Instr::Assign { res, expr, .. } => match lowered(expr, before.len()) {
                    Ok(insts) => Ok(before + rebound(insts, res)),
                    Err(e) => Err(e),
                },
                _ => Ok(before),
            },
            Err(e) => Err(e),
        }
    }
}

/// The three-address block of `block`: its name and the instructions of its
/// statements.
pub open spec fn lowered_block(block: BasicBlock) -> Result<BlockModel, InternalError> {
    match lowered_statements(block.instr@) {
        Ok(insts) => Ok(BlockModel { name: block.name@, insts }),
        Err(e) => Err(e),
    }
}

/// The three-address blocks of `blocks`, one for each and in the same order.
/// One malformed block makes the whole sequence malformed.
pub open spec fn lowered_blocks(blocks: Seq<BasicBlock>) -> Result<Seq<BlockModel>, InternalError>
    decreases blocks.len(),
{
    if blocks.len() == 0 {
        Ok(Seq::empty())
    } else {
        match lowered_blocks(blocks.drop_last()) {
            Ok(before) => match lowered_block(blocks.last()) {
                Ok(block) => Ok(before.push(block)),
                Err(e) => Err(e),
            },
            Err(e) => Err(e),
        }
    }
}

/// The container of `cfg`: its name and function, no parameters and no return
/// values, and the three-address blocks of its blocks.
pub open spec fn lowered_function(cfg: ControlFlowGraph) -> Result<FunctionModel, InternalError> {
    match lowered_blocks(cfg.blocks@) {
        Ok(blocks) => Ok(
            FunctionModel {
                name: cfg.name@,
                function_no: cfg.function_no,
                params: Seq::empty(),
                returns: Seq::empty(),
                blocks,
            },
        ),
        Err(e) => Err(e),
    }
}

/// Statements that are malformed up to some point are malformed as a whole.
proof fn lemma_statements_stay_malformed(statements: Seq<Instr>, n: int)
    requires
        0 <= n <= statements.len(),
        lowered_statements(statements.take(n)) is Err,
    ensures
        lowered_statements(statements) is Err,
    decreases statements.len() - n,
{
    if n == statements.len() {
        assert(statements.take(n) == statements);
    } else {
        assert(statements.drop_last().take(n) == statements.take(n));
        lemma_statements_stay_malformed(statements.drop_last(), n);
    }
}

/// Blocks that are malformed up to some point are malformed as a whole.
proof fn lemma_blocks_stay_malformed(blocks: Seq<BasicBlock>, n: int)
    requires
        0 <= n <= blocks.len(),
        lowered_blocks(blocks.take(n)) is Err,
    ensures
        lowered_blocks(blocks) is Err,
    decreases blocks.len() - n,
{
    if n == blocks.len() {
        assert(blocks.take(n) == blocks);
    } else {
        assert(blocks.drop_last().take(n) == blocks.take(n));
        lemma_blocks_stay_malformed(blocks.drop_last(), n);
    }
}

/// The value of `expression` where it is a number literal.
fn literal_value(expression: &Expression) -> (value: Option<&BigInt>)
    ensures
        match *expression {
            Expression::NumberLiteral { value: v, .. } => value == Some(&v),
            _ => value is None,
        },
{
    match expression {
        Expression::NumberLiteral { value, .. } => Some(value),
        _ => None,
    }
}

/// Folds the literal `value` into the instructions that `out` holds from
/// position `start` on, for an addition of type `ty`.
fn fold_literal(side: Side, value: &BigInt, ty: Type, start: usize, out: &mut Vec<Inst>)
    requires
        start <= old(out)@.len(),
    ensures
        final(out)@ == old(out)@.take(start as int) + folded(
            side,
            *value,
            ty,
            old(out)@.skip(start as int),
            old(out)@.len() as usize,
        ),
{
    let next = out.len();
    proof {
        assert(out@ == out@.take(start as int) + out@.skip(start as int));
    }
    if next > start {
        let found: Option<(Loc, Type, usize)> = match &out[next - 1] {
            Inst::Assign { loc, res: Operand::TempVar { res, ty }, .. } => Some((*loc, *ty, *res)),
            Inst::Assign { loc, res: Operand::Variable { res, ty }, .. } => Some((*loc, *ty, *res)),
            _ => None,
        };
        if let Some((loc, of, res)) = found {
            let literal = Operand::Literal { ty: of, value: value.clone() };
            let named = Operand::Variable { res, ty: of };
            let expr = match side {
                Side::Left => Expr::Add { loc, ty: of, left: literal, right: named },
                Side::Right => Expr::Add { loc, ty: of, left: named, right: literal },
            };
            let inst = Inst::Assign { loc, res: Operand::new_temp_var(ty, next), expr };
            proof {
                assert(old(out)@.take(start as int) + old(out)@.skip(start as int).push(inst)
                    == old(out)@.push(inst));
            }
            out.push(inst);
        }
    }
}

/// Appends the instructions of `expression` to `out`. Where the expression is
/// malformed, what `out` then holds is of no use.
fn lower_into(expression: &Expression, out: &mut Vec<Inst>) -> (r: Result<(), InternalError>)
    ensures
        match lowered(*expression, old(out)@.len()) {
            Ok(insts) => r is Ok && final(out)@ == old(out)@ + insts,
            Err(e) => r == Err::<(), InternalError>(e),
        },
    decreases expression,
{
    match expression {
        Expression::NumberLiteral { loc, ty, value } => {
            let next = out.len();
            let inst = Inst::Assign {
                loc: *loc,
                res: Operand::new_temp_var(*ty, next),
                expr: Expr::Operand { oper: Operand::Literal { ty: *ty, value: value.clone() } },
            };
            proof {
                assert(out@.push(inst) == out@ + seq![inst]);
            }
            out.push(inst);
            Ok(())
        },
        Expression::Add { loc, ty, left, right, .. } => {
            let start = out.len();
            if let Some(value) = literal_value(&**left) {
                match lower_into(&**right, out) {
                    Ok(()) => {},
                    Err(e) => {
                        return Err(e);
                    },
                }
                proof {
                    let operand = lowered(**right, start as nat)->Ok_0;
                    assert(out@.take(start as int) == old(out)@);
                    assert(out@.skip(start as int) == operand);
                }
                fold_literal(Side::Left, value, *ty, start, out);
                Ok(())
            } else if let Some(value) = literal_value(&**right) {
                match lower_into(&**left, out) {
                    Ok(()) => {},
                    Err(e) => {
                        return Err(e);
                    },
                }
                proof {
                    let operand = lowered(**left, start as nat)->Ok_0;
                    assert(out@.take(start as int) == old(out)@);
                    assert(out@.skip(start as int) == operand);
                }
                fold_literal(Side::Right, value, *ty, start, out);
                Ok(())
            } else {
                match lower_into(&**left, out) {
                    Ok(()) => {},
                    Err(e) => {
                        return Err(e);
                    },
                }
                let middle = out.len();
                if middle == start {
                    return Err(InternalError::MalformedExpression);
                }
                let left_operand = match &out[middle - 1] {
                    Inst::Assign { res, .. } => res.clone(),
                    _ => {
                        return Err(InternalError::MalformedExpression);
                    },
                };
                match lower_into(&**right, out) {
                    Ok(()) => {},
                    Err(e) => {
                        return Err(e);
                    },
                }
                let next = out.len();
                if next == middle {
                    return Err(InternalError::MalformedExpression);
                }
                let right_operand = match &out[next - 1] {
                    Inst::Assign { res, .. } => res.clone(),
                    _ => {
                        return Err(InternalError::MalformedExpression);
                    },
                };
                let inst = Inst::Assign {
                    loc: *loc,
                    res: Operand::new_temp_var(*ty, next),
                    expr: Expr::Add { loc: *loc, ty: *ty, left: left_operand, right: right_operand },
                };
                proof {
                    let l = lowered(**left, start as nat)->Ok_0;
                    let r = lowered(**right, (start + l.len()) as nat)->Ok_0;
                    assert(out@ == old(out)@ + l + r);
                    assert(out@.push(inst) == old(out)@ + (l + r).push(inst));
                }
                out.push(inst);
                Ok(())
            }
        },
        _ => {
            proof {
                assert(out@ == out@ + Seq::<Inst>::empty());
            }
            Ok(())
        },
    }
}

impl Inst {
    /// Lowers `expression` to the instructions that compute it, its
    /// temporaries numbered from zero. The last instruction assigns the value
    /// of the whole expression to a temporary of the type that the expression
    /// is declared with. An expression that the lowering does not handle
    /// gives no instructions.
    ///
    /// Fails where an addition without a literal operand has an operand that
    /// gives no instructions.
    pub fn from_expression(expression: &Expression) -> (r: Result<Vec<Inst>, InternalError>)
        ensures
            match lowered(*expression, 0) {
                Ok(insts) => r matches Ok(v) && v@ == insts,
                Err(e) => r matches Err(x) && x == e,
            },
            r is Err <==> malformed(*expression),
            r matches Ok(v) ==> (v@.len() > 0 <==> gives_value(*expression)),
            r matches Ok(v) ==> forall|i: int|
                0 <= i < v@.len() ==> assigns_temporary(#[trigger] v@[i], i as usize),
            match r {
                Ok(v) => v@.len() > 0 ==> v@.last().destination() == Some(
                    Operand::TempVar {
                        ty: expression.declared_type(),
                        res: (v@.len() - 1) as usize,
                    },
                ),
                Err(_) => true,
            },
    {
        let mut instr: Vec<Inst> = Vec::new();
        proof {
            lemma_outcome(*expression, 0);
        }
        match lower_into(expression, &mut instr) {
            Ok(()) => {
                proof {
                    let insts = lowered(*expression, 0)->Ok_0;
                    assert(Seq::<Inst>::empty() + insts == insts);
                    lemma_temporaries_numbered(*expression, 0);
                    if insts.len() > 0 {
                        lemma_last_has_declared_type(*expression, 0);
                    }
                }
                Ok(instr)
            },
            Err(e) => Err(e),
        }
    }
}

/// Assigns to the variable `dest` what the instructions that `out` holds
/// from position `start` on compute.
fn rebind(out: &mut Vec<Inst>, start: usize, dest: usize)
    requires
        start <= old(out)@.len(),
    ensures
        final(out)@ == old(out)@.take(start as int) + rebound(old(out)@.skip(start as int), dest),
{
    proof {
        assert(out@ == out@.take(start as int) + out@.skip(start as int));
    }
    if out.len() > start {
        match out.pop() {
            Some(Inst::Assign { loc, res: Operand::TempVar { ty, .. }, expr }) => {
                let inst = Inst::Assign { loc, res: Operand::Variable { res: dest, ty }, expr };
                proof {
                    assert(old(out)@.take(start as int) + old(out)@.skip(
                        start as int,
                    ).drop_last().push(inst) == old(out)@.drop_last().push(inst));
                }
                out.push(inst);
            },
            _ => {
                out.truncate(start);
                proof {
                    assert(out@ == old(out)@.take(start as int) + Seq::<Inst>::empty());
                }
            },
        }
    }
}

impl ThreeAddressesBlock {
    /// The indices of the blocks that this block may jump to: one entry for
    /// each jump, in instruction order, a target named twice listed twice.
    pub fn edges(&self) -> (edges: Vec<usize>)
        ensures
            edges@ == branch_targets(self.insts@),
    {
        let mut edges: Vec<usize> = Vec::new();
        let mut i: usize = 0;
        while i < self.insts.len()
            invariant
                i <= self.insts.len(),
                edges@ == branch_targets(self.insts@.take(i as int)),
            decreases self.insts.len() - i,
        {
            proof {
                assert(self.insts@.take(i + 1).drop_last() == self.insts@.take(i as int));
            }
            match &self.insts[i] {
                Inst::Branch { block } => {
                    edges.push(*block);
                },
                _ => (),
            }
            i += 1;
        }
        proof {
            assert(self.insts@.take(i as int) == self.insts@);
        }
        edges
    }

    /// Lowers a source block to the three-address block of the same name.
    /// Each assignment gives the instructions of its expression, the last of
    /// them assigning the statement's own variable; statements of any other
    /// kind, and assignments whose expression gives no instructions, are
    /// left out.
    ///
    /// Fails where the expression of one of the assignments is malformed.
    pub fn from_basic(block: &BasicBlock) -> (r: Result<ThreeAddressesBlock, InternalError>)
        ensures
            match lowered_block(*block) {
                Ok(model) => r matches Ok(b) && b@ == model,
                Err(e) => r matches Err(x) && x == e,
            },
            r is Err <==> block_malformed(*block),
    {
        let mut insts: Vec<Inst> = Vec::new();
        let mut i: usize = 0;
        while i < block.instr.len()
            invariant
                i <= block.instr.len(),
                lowered_statements(block.instr@.take(i as int)) == Ok::<
                    Seq<Inst>,
                    InternalError,
                >(insts@),
            decreases block.instr.len() - i,
        {
            proof {
                assert(block.instr@.take(i + 1).drop_last() == block.instr@.take(i as int));
            }
            match &block.instr[i] {
                Instr::Assign { res, expr, .. } => {
                    let start = insts.len();
                    let ghost before = insts@;
                    match lower_into(expr, &mut insts) {
                        Ok(()) => {},
                        Err(e) => {
                            proof {
                                lemma_statements_stay_malformed(block.instr@, i + 1);
                                lemma_statements_malformed_exactly(block.instr@);
                            }
                            return Err(e);
                        },
                    }
                    proof {
                        let added = lowered(*expr, start as nat)->Ok_0;
                        assert(insts@.take(start as int) == before);
                        assert(insts@.skip(start as int) == added);
                    }
                    rebind(&mut insts, start, *res);
                },
                _ => (),
            }
            i += 1;
        }
        proof {
            assert(block.instr@.take(i as int) == block.instr@);
            lemma_statements_malformed_exactly(block.instr@);
        }
        Ok(ThreeAddressesBlock { name: block.name.clone(), insts })
    }
}

impl StaticSingleAssignment {
    /// An empty container for the function `function_no`: no parameters, no
    /// return values and no blocks.
    pub fn new(name: String, function_no: ASTFunction) -> (ssa: StaticSingleAssignment)
        ensures
            ssa@ == (FunctionModel {
                name: name@,
                function_no,
                params: Seq::empty(),
                returns: Seq::empty(),
                blocks: Seq::empty(),
            }),
    {
        let ssa = StaticSingleAssignment {
            name,
            function_no,
            params: Arc::new(Vec::new()),
            returns: Arc::new(Vec::new()),
            blocks: Vec::new(),
        };
        proof {
            assert(ssa@.params == Seq::<Parameter>::empty());
            assert(ssa@.returns == Seq::<Parameter>::empty());
            assert(ssa@.blocks == Seq::<BlockModel>::empty());
        }
        ssa
    }

    /// Lowers a whole graph: the container has the graph's name and function,
    /// no parameters and no return values, and one three-address block for
    /// each block of the graph, in the graph's order.
    ///
    /// Fails where one of the blocks holds a malformed expression; nothing of
    /// the graph is then handed back.
    pub fn from_cfg(cfg: &ControlFlowGraph) -> (r: Result<StaticSingleAssignment, InternalError>)
        ensures
            match lowered_function(*cfg) {
                Ok(model) => r matches Ok(ssa) && ssa@ == model,
                Err(e) => r matches Err(x) && x == e,
            },
            r is Err <==> exists|i: int|
                0 <= i < cfg.blocks@.len() && block_malformed(#[trigger] cfg.blocks@[i]),
            r matches Ok(ssa) ==> ssa.blocks@.len() == cfg.blocks@.len() && forall|i: int|
                0 <= i < cfg.blocks@.len() ==> (#[trigger] ssa.blocks@[i]).name@
                    == cfg.blocks@[i].name@,
    {
        let mut blocks: Vec<ThreeAddressesBlock> = Vec::new();
        let mut i: usize = 0;
        proof {
            assert(block_models(blocks@) == Seq::<BlockModel>::empty());
        }
        while i < cfg.blocks.len()
            invariant
                i <= cfg.blocks.len(),
                lowered_blocks(cfg.blocks@.take(i as int)) == Ok::<Seq<BlockModel>, InternalError>(
                    block_models(blocks@),
                ),
            decreases cfg.blocks.len() - i,
        {
            proof {
                assert(cfg.blocks@.take(i + 1).drop_last() == cfg.blocks@.take(i as int));
            }
            let ghost before = block_models(blocks@);
            match ThreeAddressesBlock::from_basic(&cfg.blocks[i]) {
                Ok(three_addresses) => {
                    blocks.push(three_addresses);
                    proof {
                        assert(block_models(blocks@) == before.push(three_addresses@));
                    }
                },
                Err(e) => {
                    proof {
                        lemma_blocks_stay_malformed(cfg.blocks@, i + 1);
                        lemma_blocks_malformed_exactly(cfg.blocks@);
                    }
                    return Err(e);
                },
            }
            i += 1;
        }
        proof {
            assert(cfg.blocks@.take(i as int) == cfg.blocks@);
        }
        let ssa = StaticSingleAssignment {
            name: cfg.name.clone(),
            function_no: cfg.function_no,
            params: Arc::new(Vec::new()),
            returns: Arc::new(Vec::new()),
            blocks,
        };
        proof {
            assert(ssa@.params == Seq::<Parameter>::empty());
            assert(ssa@.returns == Seq::<Parameter>::empty());
            lemma_blocks_correspond(cfg.blocks@);
            lemma_blocks_malformed_exactly(cfg.blocks@);
            assert forall|i: int| 0 <= i < cfg.blocks@.len() implies (#[trigger] ssa.blocks@[i]).name@
                == cfg.blocks@[i].name@ by {
                assert(block_models(ssa.blocks@)[i] == ssa.blocks@[i]@);
                assert(lowered_block(cfg.blocks@[i]) is Ok);
            }
        }
        Ok(ssa)
    }
}

} // verus!
