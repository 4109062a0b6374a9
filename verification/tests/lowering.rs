use num_bigint::BigInt;
use solang_parser::pt::Loc;
use three_address::codegen::cfg::Expression;
use three_address::intermediate::{Expr, Inst, InternalError, Operand};
use three_address::sema::ast::Type;

const U256: Type = Type::Uint(256);

fn at(n: usize) -> Loc {
    Loc::File(0, n, n + 1)
}

fn number(loc: Loc, ty: Type, value: i64) -> Expression {
    Expression::NumberLiteral { loc, ty, value: BigInt::from(value) }
}

fn variable(loc: Loc, ty: Type, var_no: usize) -> Expression {
    Expression::Variable { loc, ty, var_no }
}

fn sum(loc: Loc, ty: Type, left: Expression, right: Expression) -> Expression {
    Expression::Add { loc, ty, overflowing: false, left: Box::new(left), right: Box::new(right) }
}

fn literal(ty: Type, value: i64) -> Operand {
    Operand::Literal { ty, value: BigInt::from(value) }
}

fn temp(ty: Type, res: usize) -> Operand {
    Operand::TempVar { ty, res }
}

fn named(ty: Type, res: usize) -> Operand {
    Operand::Variable { ty, res }
}

fn load(loc: Loc, ty: Type, res: usize, value: i64) -> Inst {
    Inst::Assign { loc, res: temp(ty, res), expr: Expr::Operand { oper: literal(ty, value) } }
}

fn add(loc: Loc, ty: Type, res: usize, left: Operand, right: Operand) -> Inst {
    Inst::Assign { loc, res: temp(ty, res), expr: Expr::Add { loc, ty, left, right } }
}

#[test]
fn number_literal_is_one_assignment() {
    let insts = Inst::from_expression(&number(at(1), U256, 42)).unwrap();
    assert_eq!(insts, vec![load(at(1), U256, 0, 42)]);
}

#[test]
fn negative_and_large_literals_keep_their_value() {
    let big = BigInt::parse_bytes(b"-123456789012345678901234567890123456789", 10).unwrap();
    let e = Expression::NumberLiteral { loc: Loc::Codegen, ty: Type::Int(256), value: big.clone() };
    let insts = Inst::from_expression(&e).unwrap();
    assert_eq!(insts.len(), 1);
    match &insts[0] {
        Inst::Assign { expr: Expr::Operand { oper: Operand::Literal { value, ty } }, .. } => {
            assert_eq!(*value, big);
            assert_eq!(*ty, Type::Int(256));
        }
        other => panic!("unexpected instruction {:?}", other),
    }
}

#[test]
fn literal_on_the_left_is_folded() {
    // 5 + 3: the right operand is loaded, the left one is folded in.
    let e = sum(at(9), U256, number(at(1), U256, 5), number(at(2), U256, 3));
    let insts = Inst::from_expression(&e).unwrap();
    assert_eq!(
        insts,
        vec![
            load(at(2), U256, 0, 3),
            add(at(2), U256, 1, literal(U256, 5), named(U256, 0)),
        ]
    );
}

#[test]
fn literal_on_the_right_is_folded() {
    // (1 + 2) + 3: the outer right literal is folded on the right.
    let inner = sum(at(7), U256, number(at(1), U256, 1), number(at(2), U256, 2));
    let e = sum(at(8), U256, inner, number(at(3), U256, 3));
    let insts = Inst::from_expression(&e).unwrap();
    assert_eq!(
        insts,
        vec![
            load(at(2), U256, 0, 2),
            add(at(2), U256, 1, literal(U256, 1), named(U256, 0)),
            add(at(2), U256, 2, named(U256, 1), literal(U256, 3)),
        ]
    );
}

#[test]
fn nested_folds_take_one_temporary_each() {
    // 5 + (7 + 3)
    let inner = sum(at(7), U256, number(at(1), U256, 7), number(at(2), U256, 3));
    let e = sum(at(8), U256, number(at(3), U256, 5), inner);
    let insts = Inst::from_expression(&e).unwrap();
    assert_eq!(
        insts,
        vec![
            load(at(2), U256, 0, 3),
            add(at(2), U256, 1, literal(U256, 7), named(U256, 0)),
            add(at(2), U256, 2, literal(U256, 5), named(U256, 1)),
        ]
    );
}

#[test]
fn sum_without_literal_operand_joins_both_sides() {
    // (1 + 2) + (3 + 4)
    let left = sum(at(10), U256, number(at(1), U256, 1), number(at(2), U256, 2));
    let right = sum(at(11), U256, number(at(3), U256, 3), number(at(4), U256, 4));
    let e = sum(at(12), Type::Uint(128), left, right);
    let insts = Inst::from_expression(&e).unwrap();
    assert_eq!(
        insts,
        vec![
            load(at(2), U256, 0, 2),
            add(at(2), U256, 1, literal(U256, 1), named(U256, 0)),
            load(at(4), U256, 2, 4),
            add(at(4), U256, 3, literal(U256, 3), named(U256, 2)),
            add(at(12), Type::Uint(128), 4, temp(U256, 1), temp(U256, 3)),
        ]
    );
}

#[test]
fn fold_gives_one_instruction_fewer_than_the_general_rule() {
    let deep = || sum(at(10), U256, number(at(1), U256, 1), number(at(2), U256, 2));
    let of_deep = Inst::from_expression(&deep()).unwrap().len();
    let of_literal = Inst::from_expression(&number(at(3), U256, 9)).unwrap().len();
    let folded_left =
        Inst::from_expression(&sum(at(11), U256, number(at(3), U256, 9), deep())).unwrap();
    let folded_right =
        Inst::from_expression(&sum(at(11), U256, deep(), number(at(3), U256, 9))).unwrap();
    // the general rule keeps both sides and adds one instruction
    let general = of_literal + of_deep + 1;
    assert_eq!(folded_left.len() + 1, general);
    assert_eq!(folded_right.len() + 1, general);
    assert_eq!(folded_left.len(), 3);
}

#[test]
fn last_instruction_assigns_the_declared_type() {
    let ty = Type::Int(64);
    let e = sum(
        at(5),
        ty,
        sum(at(4), ty, number(at(1), ty, 1), number(at(2), ty, 2)),
        sum(at(3), ty, number(at(1), ty, 3), number(at(2), ty, 4)),
    );
    let insts = Inst::from_expression(&e).unwrap();
    match insts.last() {
        Some(Inst::Assign { res, .. }) => assert_eq!(*res, temp(ty, insts.len() - 1)),
        other => panic!("unexpected last instruction {:?}", other),
    }
}

#[test]
fn fold_assigns_the_declared_type() {
    // The addition is declared as uint8, its operand as uint256: the new
    // temporary has the declared type, the sum inside keeps the operand's.
    let e = sum(at(5), Type::Uint(8), number(at(1), U256, 1), number(at(2), U256, 2));
    let insts = Inst::from_expression(&e).unwrap();
    let expected = Inst::Assign {
        loc: at(2),
        res: temp(Type::Uint(8), 1),
        expr: Expr::Add { loc: at(2), ty: U256, left: literal(U256, 1), right: named(U256, 0) },
    };
    assert_eq!(insts, vec![load(at(2), U256, 0, 2), expected]);
    // and on the right
    let e = sum(at(5), Type::Int(16), number(at(1), U256, 1), number(at(2), Type::Uint(64), 2));
    let insts = Inst::from_expression(&e).unwrap();
    match insts.last() {
        Some(Inst::Assign { res, .. }) => assert_eq!(*res, temp(Type::Int(16), 1)),
        other => panic!("unexpected last instruction {:?}", other),
    }
}

#[test]
fn nested_folds_of_other_types_end_in_the_outer_type() {
    // uint8: 5 + (uint16: (uint32: 7) + 3)
    let inner = sum(at(7), Type::Uint(16), number(at(1), Type::Uint(32), 7), number(at(2), U256, 3));
    let e = sum(at(8), Type::Uint(8), number(at(3), U256, 5), inner);
    let insts = Inst::from_expression(&e).unwrap();
    let types: Vec<Type> = insts
        .iter()
        .map(|inst| match inst {
            Inst::Assign { res: Operand::TempVar { ty, .. }, .. } => *ty,
            other => panic!("unexpected instruction {:?}", other),
        })
        .collect();
    assert_eq!(types, vec![U256, Type::Uint(16), Type::Uint(8)]);
}

#[test]
fn temporaries_are_numbered_by_position() {
    let left = sum(at(10), U256, number(at(1), U256, 1), number(at(2), U256, 2));
    let right = sum(at(11), U256, number(at(3), U256, 3), number(at(4), U256, 4));
    let e = sum(at(13), U256, sum(at(12), U256, left, right), number(at(5), U256, 5));
    let insts = Inst::from_expression(&e).unwrap();
    assert_eq!(insts.len(), 6);
    for (i, inst) in insts.iter().enumerate() {
        match inst {
            Inst::Assign { res: Operand::TempVar { res, .. }, .. } => assert_eq!(*res, i),
            other => panic!("unexpected instruction {:?}", other),
        }
    }
}

#[test]
fn unsupported_shapes_give_nothing() {
    assert_eq!(Inst::from_expression(&variable(at(1), U256, 3)), Ok(vec![]));
    assert_eq!(
        Inst::from_expression(&Expression::BoolLiteral { loc: at(1), value: true }),
        Ok(vec![])
    );
    let difference = Expression::Subtract {
        loc: at(1),
        ty: U256,
        overflowing: false,
        left: Box::new(number(at(2), U256, 9)),
        right: Box::new(number(at(3), U256, 4)),
    };
    assert_eq!(Inst::from_expression(&difference), Ok(vec![]));
}

#[test]
fn fold_over_an_unsupported_operand_gives_nothing() {
    // x + 3 and 3 + x: the variable gives no instructions, so no sum is formed
    let x_plus_3 = sum(at(5), U256, variable(at(1), U256, 0), number(at(2), U256, 3));
    assert_eq!(Inst::from_expression(&x_plus_3), Ok(vec![]));
    let three_plus_x = sum(at(5), U256, number(at(2), U256, 3), variable(at(1), U256, 0));
    assert_eq!(Inst::from_expression(&three_plus_x), Ok(vec![]));
}

#[test]
fn nested_sum_over_a_variable_gives_nothing() {
    // 5 + (x + 3)
    let inner = sum(at(5), U256, variable(at(1), U256, 0), number(at(2), U256, 3));
    let e = sum(at(6), U256, number(at(3), U256, 5), inner);
    assert_eq!(Inst::from_expression(&e), Ok(vec![]));
}

#[test]
fn overflow_flag_is_not_consulted() {
    let make = |overflowing: bool| Expression::Add {
        loc: at(5),
        ty: U256,
        overflowing,
        left: Box::new(number(at(1), U256, 1)),
        right: Box::new(number(at(2), U256, 2)),
    };
    assert_eq!(Inst::from_expression(&make(true)), Inst::from_expression(&make(false)));
}

#[test]
fn sum_of_two_variables_is_malformed() {
    let e = sum(at(5), U256, variable(at(1), U256, 0), variable(at(2), U256, 1));
    assert_eq!(Inst::from_expression(&e), Err(InternalError::MalformedExpression));
}

#[test]
fn unsupported_operand_beside_a_lowered_one_is_malformed() {
    let lowered = sum(at(4), U256, number(at(1), U256, 1), number(at(2), U256, 2));
    let e = sum(at(5), U256, lowered, variable(at(3), U256, 0));
    assert_eq!(Inst::from_expression(&e), Err(InternalError::MalformedExpression));
    let lowered = sum(at(4), U256, number(at(1), U256, 1), number(at(2), U256, 2));
    let e = sum(at(5), U256, variable(at(3), U256, 0), lowered);
    assert_eq!(Inst::from_expression(&e), Err(InternalError::MalformedExpression));
}

#[test]
fn malformed_operand_fails_the_enclosing_fold() {
    // 5 + (x + y): the failure inside is not dropped by the fold around it
    let inner = sum(at(5), U256, variable(at(1), U256, 0), variable(at(2), U256, 1));
    let e = sum(at(6), U256, number(at(3), U256, 5), inner);
    assert_eq!(Inst::from_expression(&e), Err(InternalError::MalformedExpression));
    let inner = sum(at(5), U256, variable(at(1), U256, 0), variable(at(2), U256, 1));
    let e = sum(at(6), U256, inner, number(at(3), U256, 5));
    assert_eq!(Inst::from_expression(&e), Err(InternalError::MalformedExpression));
}

#[test]
fn operands_and_expressions_clone_equal() {
    let oper = literal(Type::Int(32), -7);
    assert_eq!(oper.clone(), oper);
    assert_eq!(temp(U256, 4).clone(), temp(U256, 4));
    assert_eq!(named(U256, 4).clone(), named(U256, 4));
    let expr = Expr::Add { loc: at(3), ty: U256, left: literal(U256, 1), right: named(U256, 2) };
    assert_eq!(expr.clone(), expr);
    let bare = Expr::Operand { oper: literal(U256, 8) };
    assert_eq!(bare.clone(), bare);
}
