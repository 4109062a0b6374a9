//! What holds of every lowering.

use crate::codegen::cfg::{BasicBlock, Expression, Instr};
use crate::intermediate::ssa::{
    assigns_temporary, block_malformed, branch_targets, gives_value, joined, lowered, lowered_block, lowered_blocks,
    lowered_statements, malformed, rebound, statement_malformed,
};
use crate::intermediate::{BlockModel, Inst, InternalError, Operand};
use crate::sema::ast::Type;
use solang_parser::pt::Loc;
use vstd::prelude::*;

verus! {

/// The instructions of the addition of `left` and `right` by the rule for
/// operands of which neither is a literal, whatever the operands are.
pub open spec fn general_sum(loc: Loc, ty: Type, left: Expression, right: Expression, base: nat) -> Result<
    Seq<Inst>,
    InternalError,
> {
    match lowered(left, base) {
        Ok(l) => match lowered(right, base + l.len()) {
            Ok(r) => joined(loc, ty, l, r, (base + l.len() + r.len()) as usize),
            Err(e) => Err(e),
        },
        Err(e) => Err(e),
    }
}

/// Every instruction of a lowering assigns a temporary, and the temporary is
/// numbered by the instruction's position: no two instructions of one
/// lowering assign the same temporary, as long as the positions fit the
/// machine's word.
pub proof fn lemma_temporaries_numbered(expression: Expression, base: nat)
    ensures
        lowered(expression, base) matches Ok(insts) ==> forall|i: int|
            0 <= i < insts.len() ==> assigns_temporary(#[trigger] insts[i], (base + i) as usize),
    decreases expression,
{
    match expression {
        Expression::Add { loc, ty, left, right, .. } => {
            if *left is NumberLiteral {
                lemma_temporaries_numbered(*right, base);
            } else if *right is NumberLiteral {
                lemma_temporaries_numbered(*left, base);
            } else {
                lemma_temporaries_numbered(*left, base);
                if let Ok(l) = lowered(*left, base) {
                    lemma_temporaries_numbered(*right, base + l.len());
                    if let Ok(r) = lowered(*right, base + l.len()) {
                        if let Ok(insts) = lowered(expression, base) {
                            assert forall|i: int| 0 <= i < insts.len() implies assigns_temporary(
                                #[trigger] insts[i],
                                (base + i) as usize,
                            ) by {
                                if i < l.len() {
                                    assert(insts[i] == l[i]);
                                } else if i < l.len() + r.len() {
                                    assert(insts[i] == r[i - l.len()]);
                                    assert(base + l.len() + (i - l.len()) == base + i);
                                }
                            }
                        }
                    }
                }
            }
        },
        _ => {},
    }
}

/// Whether an expression is malformed, and how many instructions it gives,
/// does not depend on the number of the first temporary.
pub proof fn lemma_length_ignores_base(expression: Expression, a: nat, b: nat)
    ensures
        match (lowered(expression, a), lowered(expression, b)) {
            (Ok(s), Ok(t)) => s.len() == t.len(),
            (Err(_), Err(_)) => true,
            _ => false,
        },
    decreases expression,
{
    match expression {
        Expression::Add { loc, ty, left, right, .. } => {
            if *left is NumberLiteral {
                lemma_length_ignores_base(*right, a, b);
                lemma_temporaries_numbered(*right, a);
                lemma_temporaries_numbered(*right, b);
            } else if *right is NumberLiteral {
                lemma_length_ignores_base(*left, a, b);
                lemma_temporaries_numbered(*left, a);
                lemma_temporaries_numbered(*left, b);
            } else {
                lemma_length_ignores_base(*left, a, b);
                lemma_temporaries_numbered(*left, a);
                lemma_temporaries_numbered(*left, b);
                if let Ok(s) = lowered(*left, a) {
                    let t = lowered(*left, b)->Ok_0;
                    lemma_length_ignores_base(*right, a + s.len(), b + t.len());
                    lemma_temporaries_numbered(*right, a + s.len());
                    lemma_temporaries_numbered(*right, b + t.len());
                }
            }
        },
        _ => {},
    }
}

/// A lowering fails exactly on a malformed expression, and gives
/// instructions exactly of an expression that gives a value, whatever the
/// number of the first temporary.
pub proof fn lemma_outcome(expression: Expression, base: nat)
    ensures
        lowered(expression, base) is Err <==> malformed(expression),
        (lowered(expression, base) matches Ok(insts) && insts.len() > 0) <==> gives_value(
            expression,
        ),
    decreases expression,
{
    match expression {
        Expression::Add { left, right, .. } => {
            if *left is NumberLiteral {
                lemma_outcome(*right, base);
                lemma_temporaries_numbered(*right, base);
            } else if *right is NumberLiteral {
                lemma_outcome(*left, base);
                lemma_temporaries_numbered(*left, base);
            } else {
                lemma_outcome(*left, base);
                lemma_temporaries_numbered(*left, base);
                if let Ok(l) = lowered(*left, base) {
                    lemma_outcome(*right, base + l.len());
                    lemma_temporaries_numbered(*right, base + l.len());
                }
            }
        },
        _ => {},
    }
}

/// A lowering that gives any instructions ends in the assignment of a
/// temporary, and the temporary has the type that the expression is declared
/// with and the number of the last position.
pub proof fn lemma_last_has_declared_type(expression: Expression, base: nat)
    requires
        lowered(expression, base) matches Ok(insts) && insts.len() > 0,
    ensures
        ({
            &&& lowered(expression, base) matches Ok(insts)
            &&& insts.last() matches Inst::Assign { res: Operand::TempVar { ty, res }, .. }
            &&& ty == expression.declared_type()
            &&& res == (base + insts.len() - 1) as usize
        }),
{
    lemma_temporaries_numbered(expression, base);
    match expression {
        Expression::Add { left, right, .. } => {
            if *left is NumberLiteral {
                lemma_temporaries_numbered(*right, base);
            } else if *right is NumberLiteral {
                lemma_temporaries_numbered(*left, base);
            }
        },
        _ => {},
    }
}

/// An addition with a literal operand that gives any instructions gives one
/// instruction fewer than the rule for additions without a literal operand
/// gives of the same two operands: the literal gets no temporary of its own.
pub proof fn lemma_fold_saves_one(expression: Expression, base: nat)
    requires
        expression matches Expression::Add { left, right, .. } && (*left is NumberLiteral
            || *right is NumberLiteral),
        lowered(expression, base) matches Ok(insts) && insts.len() > 0,
    ensures
        ({
            &&& expression matches Expression::Add { loc, ty, left, right, .. }
            &&& lowered(expression, base) matches Ok(insts)
            &&& general_sum(loc, ty, *left, *right, base) matches Ok(unfolded)
            &&& unfolded.len() == insts.len() + 1
        }),
{
    match expression {
        Expression::Add { loc, ty, left, right, .. } => {
            if *left is NumberLiteral {
                lemma_temporaries_numbered(*right, base);
                lemma_length_ignores_base(*right, base, base + 1);
                lemma_temporaries_numbered(*right, base + 1);
            } else {
                let operand = lowered(*left, base)->Ok_0;
                lemma_temporaries_numbered(*left, base);
                lemma_temporaries_numbered(*right, base + operand.len());
            }
        },
        _ => {},
    }
}

/// An addition of which neither operand is a literal is lowered by the
/// general rule.
pub proof fn lemma_plain_sum_is_general(expression: Expression, base: nat)
    requires
        expression matches Expression::Add { left, right, .. } && !(*left is NumberLiteral) && !(
        *right is NumberLiteral),
    ensures
        ({
            &&& expression matches Expression::Add { loc, ty, left, right, .. }
            &&& lowered(expression, base) == general_sum(loc, ty, *left, *right, base)
        }),
{
}

/// The jumps of two sequences of instructions, one after the other, are the
/// jumps of the first and then those of the second: none is lost, added or
/// moved.
pub proof fn lemma_branch_targets_concat(first: Seq<Inst>, second: Seq<Inst>)
    ensures
        branch_targets(first + second) == branch_targets(first) + branch_targets(second),
    decreases second.len(),
{
    if second.len() == 0 {
        assert(first + second == first);
        assert(branch_targets(first) + branch_targets(second) == branch_targets(first));
    } else {
        assert((first + second).drop_last() == first + second.drop_last());
        lemma_branch_targets_concat(first, second.drop_last());
        match second.last() {
            Inst::Branch { block } => {
                assert((branch_targets(first) + branch_targets(second.drop_last())).push(block)
                    == branch_targets(first) + branch_targets(second.drop_last()).push(block));
            },
            _ => {},
        }
    }
}

/// A jump by itself has its one target, any other instruction by itself none.
pub proof fn lemma_branch_targets_single(inst: Inst)
    ensures
        branch_targets(seq![inst]) == match inst {
            Inst::Branch { block } => seq![block],
            _ => Seq::empty(),
        },
{
    assert(seq![inst].drop_last() == Seq::<Inst>::empty());
    assert(branch_targets(Seq::<Inst>::empty()) == Seq::<usize>::empty());
    match inst {
        Inst::Branch { block } => {
            assert(Seq::<usize>::empty().push(block) == seq![block]);
        },
        _ => {},
    }
}

/// A sequence of statements is malformed exactly where one of them assigns
/// a malformed expression.
pub proof fn lemma_statements_malformed_exactly(statements: Seq<Instr>)
    ensures
        lowered_statements(statements) is Err <==> exists|i: int|
            0 <= i < statements.len() && statement_malformed(#[trigger] statements[i]),
    decreases statements.len(),
{
    if statements.len() > 0 {
        let before = statements.drop_last();
        let last = statements.len() - 1;
        lemma_statements_malformed_exactly(before);
        assert forall|i: int| 0 <= i < before.len() implies before[i] == statements[i] by {}
        if let Ok(insts) = lowered_statements(before) {
            if let Instr::Assign { expr, .. } = statements[last] {
                lemma_outcome(expr, insts.len());
            }
        }
        if lowered_statements(statements) is Err {
            if lowered_statements(before) is Err {
                let i = choose|i: int|
                    0 <= i < before.len() && statement_malformed(#[trigger] before[i]);
                assert(statement_malformed(statements[i]));
            } else {
                assert(statement_malformed(statements[last]));
            }
        } else {
            assert forall|i: int| 0 <= i < statements.len() implies !statement_malformed(
                #[trigger] statements[i],
            ) by {
                if i < before.len() {
                    assert(before[i] == statements[i]);
                }
            }
        }
    }
}

/// In the block of a single assignment `dest = expr` that gives any
/// instructions, the last instruction assigns the variable `dest`, with the
/// type that the expression is declared with, however many temporaries the
/// expression took; the instructions before it are those of the expression.
pub proof fn lemma_single_assignment_rebinds(block: BasicBlock)
    requires
        block.instr@.len() == 1,
        block.instr@[0] is Assign,
        lowered_block(block) matches Ok(model) && model.insts.len() > 0,
    ensures
        ({
            &&& block.instr@[0] matches Instr::Assign { res: dest, expr, .. }
            &&& lowered_block(block) matches Ok(model)
            &&& lowered(expr, 0) matches Ok(insts)
            &&& model.insts.len() == insts.len()
            &&& model.insts.drop_last() == insts.drop_last()
            &&& model.insts.last() matches Inst::Assign { res: Operand::Variable { res, ty }, .. }
            &&& res == dest
            &&& ty == expr.declared_type()
        }),
{
    let statements = block.instr@;
    assert(statements.drop_last() == Seq::<Instr>::empty());
    assert(lowered_statements(statements.drop_last()) == Ok::<Seq<Inst>, InternalError>(
        Seq::empty(),
    ));
    match statements[0] {
        Instr::Assign { res: dest, expr, .. } => {
            let insts = lowered(expr, 0)->Ok_0;
            assert(Seq::<Inst>::empty() + rebound(insts, dest) == rebound(insts, dest));
            lemma_last_has_declared_type(expr, 0);
            assert(rebound(insts, dest).drop_last() == insts.drop_last());
        },
        _ => {},
    }
}

/// A sequence of blocks is malformed exactly where one of its blocks is.
/// Otherwise its lowering has one block for each of them, in the same order
/// and under the same names.
pub proof fn lemma_blocks_correspond(blocks: Seq<BasicBlock>)
    ensures
        lowered_blocks(blocks) is Err <==> exists|i: int|
            0 <= i < blocks.len() && #[trigger] lowered_block(blocks[i]) is Err,
        lowered_blocks(blocks) matches Ok(models) ==> models.len() == blocks.len() && forall|
            i: int,
        |
            0 <= i < blocks.len() ==> #[trigger] lowered_block(blocks[i]) == Ok::<
                BlockModel,
                InternalError,
            >(models[i]) && models[i].name == blocks[i].name@,
    decreases blocks.len(),
{
    if blocks.len() > 0 {
        let before = blocks.drop_last();
        lemma_blocks_correspond(before);
        assert forall|i: int| 0 <= i < before.len() implies before[i] == blocks[i] by {}
        if lowered_blocks(blocks) is Err {
            if lowered_blocks(before) is Err {
                let i = choose|i: int|
                    0 <= i < before.len() && #[trigger] lowered_block(before[i]) is Err;
                assert(lowered_block(blocks[i]) is Err);
            } else {
                assert(lowered_block(blocks[blocks.len() - 1]) is Err);
            }
        } else {
            let models = lowered_blocks(blocks)->Ok_0;
            assert forall|i: int| 0 <= i < blocks.len() implies !(#[trigger] lowered_block(
                blocks[i],
            ) is Err) by {
                if i < before.len() {
                    assert(before[i] == blocks[i]);
                }
            }
            assert forall|i: int| 0 <= i < blocks.len() implies #[trigger] lowered_block(
                blocks[i],
            ) == Ok::<BlockModel, InternalError>(models[i]) && models[i].name
                == blocks[i].name@ by {
                if i < before.len() {
                    assert(before[i] == blocks[i]);
                }
            }
        }
    }
}

/// A sequence of blocks is malformed exactly where one of its blocks holds an
/// assignment of a malformed expression.
pub proof fn lemma_blocks_malformed_exactly(blocks: Seq<BasicBlock>)
    ensures
        lowered_blocks(blocks) is Err <==> exists|i: int|
            0 <= i < blocks.len() && block_malformed(#[trigger] blocks[i]),
{
    lemma_blocks_correspond(blocks);
    assert forall|i: int| 0 <= i < blocks.len() implies (lowered_block(#[trigger] blocks[i]) is Err
        <==> block_malformed(blocks[i])) by {
        lemma_statements_malformed_exactly(blocks[i].instr@);
    }
    if lowered_blocks(blocks) is Err {
        let i = choose|i: int| 0 <= i < blocks.len() && #[trigger] lowered_block(blocks[i]) is Err;
        assert(block_malformed(blocks[i]));
    }
    if exists|i: int| 0 <= i < blocks.len() && block_malformed(#[trigger] blocks[i]) {
        let i = choose|i: int| 0 <= i < blocks.len() && block_malformed(#[trigger] blocks[i]);
        assert(lowered_block(blocks[i]) is Err);
    }
}

} // verus!
