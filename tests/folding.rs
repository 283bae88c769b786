use roll::fold::apply_binary;
use roll::fold_expression;
use roll::lang::BinaryOp;
use roll::lang::Expression;
use roll::lang::ExpressionKind;
use roll::lang::Span;
use roll::lang::UnaryOp;

fn constant(start: usize, value: i64) -> Box<Expression> {
    let text = value.to_string().len();
    Box::new(Expression::new_constant(Span::new(start, start + text), value))
}

fn value_of(e: &Expression) -> Option<i64> {
    match &e.kind {
        ExpressionKind::Constant(v) => Some(*v),
        _ => None,
    }
}

#[test]
fn span_merge_covers_both() {
    let a = Span::new(3, 5);
    let b = Span::new(0, 2);
    assert_eq!(a.merge(b), Span::new(0, 5));
    assert_eq!(b.range(), 0..2);
}

#[test]
fn double_negation_folds_to_constant() {
    // --5
    let five = constant(2, 5);
    let inner = Box::new(Expression::new_unary(Span::new(1, 3), UnaryOp::Negative, five));
    let mut outer = Expression::new_unary(Span::new(0, 3), UnaryOp::Negative, inner);
    fold_expression(&mut outer);
    assert_eq!(value_of(&outer), Some(5));
    assert_eq!(outer.span, Span::new(0, 3));
    fold_expression(&mut outer);
    assert_eq!(value_of(&outer), Some(5));
}

#[test]
fn arithmetic_with_group_folds() {
    // 2 * (3 + 4)
    let sum = Expression::new_binary(Span::new(5, 10), BinaryOp::Add, constant(5, 3), constant(9, 4));
    let group = Box::new(Expression::new_tree(Span::new(4, 11), Box::new(sum)));
    let mut product = Expression::new_binary(Span::new(0, 11), BinaryOp::Multiply, constant(0, 2), group);
    fold_expression(&mut product);
    // the group stays a group, so the product keeps its shape
    assert!(!product.is_number());
    match &product.kind {
        ExpressionKind::Binary(BinaryOp::Multiply, _, right) => match &right.kind {
            ExpressionKind::Tree(inner) => assert_eq!(value_of(inner), Some(7)),
            _ => panic!("group was not kept"),
        },
        _ => panic!("product was not kept"),
    }
}

#[test]
fn division_truncates_toward_zero() {
    assert_eq!(apply_binary(BinaryOp::Divide, 7, 2), Some(3));
    assert_eq!(apply_binary(BinaryOp::Divide, -7, 2), Some(-3));
    assert_eq!(apply_binary(BinaryOp::Divide, 7, -2), Some(-3));
    assert_eq!(apply_binary(BinaryOp::Divide, 1, 0), None);
    assert_eq!(apply_binary(BinaryOp::Divide, i64::MIN, -1), None);
}

#[test]
fn folding_division_of_negated_constant() {
    // -7 / 2
    let neg = Box::new(Expression::new_unary(Span::new(0, 2), UnaryOp::Negative, constant(1, 7)));
    let mut div = Expression::new_binary(Span::new(0, 6), BinaryOp::Divide, neg, constant(5, 2));
    fold_expression(&mut div);
    assert_eq!(value_of(&div), Some(-3));
}

#[test]
fn dice_is_never_folded() {
    let mut dice = Expression::new_binary(Span::new(0, 3), BinaryOp::Dice, constant(0, 2), constant(2, 6));
    fold_expression(&mut dice);
    assert!(!dice.is_number());
}

#[test]
fn arithmetic_operators_and_overflow() {
    assert_eq!(apply_binary(BinaryOp::Add, 2, 3), Some(5));
    assert_eq!(apply_binary(BinaryOp::Minus, 2, 3), Some(-1));
    assert_eq!(apply_binary(BinaryOp::Multiply, -4, 3), Some(-12));
    assert_eq!(apply_binary(BinaryOp::Add, i64::MAX, 1), None);
    assert_eq!(apply_binary(BinaryOp::Dice, 1, 6), None);
}
