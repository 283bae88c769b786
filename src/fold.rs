use vstd::prelude::*;

use crate::lang::merged;
use crate::lang::BinaryOp;
use crate::lang::Expression;
use crate::lang::ExpressionKind;
use crate::lang::Span;
use crate::lang::UnaryOp;

verus! {

pub open spec fn in_i64(v: int) -> bool {
    i64::MIN <= v <= i64::MAX
}

/// Integer division that truncates toward zero.
pub open spec fn trunc_div(a: int, b: int) -> int {
    let q: int = vstd::math::abs(a) as int / vstd::math::abs(b) as int;
    if (a < 0) != (b < 0) { -q } else { q }
}

/// The value of `l op r` on 64-bit integers, or `None` where it overflows or divides by zero.
pub open spec fn apply_op(op: BinaryOp, l: i64, r: i64) -> Option<i64> {
    let v: int = match op {
        BinaryOp::Add => l + r,
        BinaryOp::Minus => l - r,
        BinaryOp::Multiply => l * r,
        BinaryOp::Divide => if r == 0 { 0 } else { trunc_div(l as int, r as int) },
        BinaryOp::Dice => 0,
    };
    if op is Dice || (op is Divide && r == 0) || !in_i64(v) {
        None
    } else {
        Some(v as i64)
    }
}

/// The statically known value of a constant, possibly under negations.
pub open spec fn extracted(e: Expression) -> Option<i64>
    decreases e,
{
    match e.kind {
        ExpressionKind::Constant(v) => Some(v),
        ExpressionKind::Unary(UnaryOp::Negative, x) => match extracted(*x) {
            Some(v) => if v == i64::MIN { None } else { Some((-v) as i64) },
            None => None,
        },
        _ => None,
    }
}

/// The tree after constant folding.
pub open spec fn folded(e: Expression) -> Expression
    decreases e,
{
    match e.kind {
        ExpressionKind::Binary(op, l, r) => {
            let fl = folded(*l);
            let fr = folded(*r);
            match (extracted(fl), extracted(fr)) {
                (Some(a), Some(b)) => match apply_op(op, a, b) {
                    Some(v) => Expression { span: e.span, kind: ExpressionKind::Constant(v) },
                    None => Expression { span: e.span, kind: ExpressionKind::Binary(op, Box::new(fl), Box::new(fr)) },
                },
                _ => Expression { span: e.span, kind: ExpressionKind::Binary(op, Box::new(fl), Box::new(fr)) },
            }
        },
        ExpressionKind::Unary(op, x) => {
            let fx = folded(*x);
            match fx.kind {
                ExpressionKind::Unary(UnaryOp::Negative, inner) => Expression {
                    span: merged(e.span, inner.span),
                    kind: inner.kind,
                },
                _ => Expression { span: e.span, kind: ExpressionKind::Unary(op, Box::new(fx)) },
            }
        },
        ExpressionKind::Tree(x) => Expression { span: e.span, kind: ExpressionKind::Tree(Box::new(folded(*x))) },
        ExpressionKind::Constant(_) => e,
    }
}

/// The height of a tree: a leaf has height one.
pub open spec fn height(e: Expression) -> nat
    decreases e,
{
    match e.kind {
        ExpressionKind::Binary(_, l, r) => {
            let hl = height(*l);
            let hr = height(*r);
            1 + if hl >= hr { hl } else { hr }
        },
        ExpressionKind::Unary(_, x) => 1 + height(*x),
        ExpressionKind::Tree(x) => 1 + height(*x),
        ExpressionKind::Constant(_) => 1,
    }
}

/// Folding never makes a tree taller.
pub proof fn lemma_fold_height(e: Expression)
    ensures
        height(folded(e)) <= height(e),
    decreases e,
{
    match e.kind {
        ExpressionKind::Binary(op, l, r) => {
            lemma_fold_height(*l);
            lemma_fold_height(*r);
            let fl = folded(*l);
            let fr = folded(*r);
            let b = Expression { span: e.span, kind: ExpressionKind::Binary(op, Box::new(fl), Box::new(fr)) };
            assert(height(b) <= height(e));
            assert(folded(e) == b || folded(e).kind is Constant);
            if folded(e).kind is Constant {
                assert(height(folded(e)) == 1);
                assert(height(e) >= 1);
            }
        },
        ExpressionKind::Unary(_, x) => {
            lemma_fold_height(*x);
            let fx = folded(*x);
            match fx.kind {
                ExpressionKind::Unary(UnaryOp::Negative, inner) => {
                    let c = Expression { span: merged(e.span, inner.span), kind: inner.kind };
                    assert(height(c) == height(*inner));
                },
                _ => {},
            }
        },
        ExpressionKind::Tree(x) => {
            lemma_fold_height(*x);
        },
        ExpressionKind::Constant(_) => {},
    }
}

/// Folding twice gives the same tree as folding once.
pub proof fn lemma_fold_idempotent(e: Expression)
    ensures
        folded(folded(e)) == folded(e),
    decreases e,
{
    match e.kind {
        ExpressionKind::Binary(_, l, r) => {
            lemma_fold_idempotent(*l);
            lemma_fold_idempotent(*r);
        },
        ExpressionKind::Unary(op, x) => {
            lemma_fold_idempotent(*x);
            let fx = folded(*x);
            match fx.kind {
                ExpressionKind::Unary(UnaryOp::Negative, inner) => {
                    lemma_fold_height(*inner);
                    let fi = folded(*inner);
                    match fi.kind {
                        ExpressionKind::Unary(UnaryOp::Negative, ii) => {
                            assert(ii.kind == fx.kind);
                            assert(height(*ii) == height(fx));
                            assert(false);
                        },
                        _ => {
                            assert(fi == *inner);
                            match inner.kind {
                                ExpressionKind::Unary(iop, y) => {
                                    lemma_fold_idempotent(*y);
                                },
                                _ => {},
                            }
                        },
                    }
                },
                _ => {},
            }
        },
        ExpressionKind::Tree(x) => {
            lemma_fold_idempotent(*x);
        },
        ExpressionKind::Constant(_) => {},
    }
}

fn extract_number(e: &Expression) -> (r: Option<i64>)
    ensures
        r == extracted(*e),
    decreases e,
{
    match &e.kind {
        ExpressionKind::Constant(v) => Some(*v),
        ExpressionKind::Unary(UnaryOp::Negative, x) => match extract_number(x) {
            Some(v) => if v == i64::MIN { None } else { Some(-v) },
            None => None,
        },
        _ => None,
    }
}

fn abs_u64(a: i64) -> (r: u64)
    ensures
        r as int == vstd::math::abs(a as int) as int,
{
    if a < 0 {
        (-(a as i128)) as u64
    } else {
        a as u64
    }
}

/// Applies an arithmetic operator to two values; `None` on overflow, division by zero or a roll.
pub fn apply_binary(op: BinaryOp, l: i64, r: i64) -> (res: Option<i64>)
    ensures
        res == apply_op(op, l, r),
{
    match op {
        BinaryOp::Add => {
            let v: i128 = l as i128 + r as i128;
            if v < i64::MIN as i128 || v > i64::MAX as i128 { None } else { Some(v as i64) }
        },
        BinaryOp::Minus => {
            let v: i128 = l as i128 - r as i128;
            if v < i64::MIN as i128 || v > i64::MAX as i128 { None } else { Some(v as i64) }
        },
        BinaryOp::Multiply => {
            assert(-0x4000_0000_0000_0000_0000_0000_0000_0000 <= l * r <= 0x4000_0000_0000_0000_0000_0000_0000_0000) by (nonlinear_arith)
                requires i64::MIN <= l <= i64::MAX, i64::MIN <= r <= i64::MAX;
            let v: i128 = l as i128 * r as i128;
            if v < i64::MIN as i128 || v > i64::MAX as i128 { None } else { Some(v as i64) }
        },
        BinaryOp::Divide => {
            if r == 0 {
                None
            } else {
                let q: u64 = abs_u64(l) / abs_u64(r);
                let v: i128 = if (l < 0) != (r < 0) { -(q as i128) } else { q as i128 };
                if v < i64::MIN as i128 || v > i64::MAX as i128 { None } else { Some(v as i64) }
            }
        },
        BinaryOp::Dice => None,
    }
}

fn fold_owned(e: Expression) -> (r: Expression)
    ensures
        r == folded(e),
    decreases e,
{
    let span = e.span;
    match e.kind {
        ExpressionKind::Binary(op, l, r) => {
            let fl = fold_owned(*l);
            let fr = fold_owned(*r);
            let a = extract_number(&fl);
            let b = extract_number(&fr);
            match (a, b) {
                (Some(a), Some(b)) => match apply_binary(op, a, b) {
                    Some(v) => Expression::new_constant(span, v),
                    None => Expression::new_binary(span, op, Box::new(fl), Box::new(fr)),
                },
                _ => Expression::new_binary(span, op, Box::new(fl), Box::new(fr)),
            }
        },
        ExpressionKind::Unary(op, x) => {
            let fx = fold_owned(*x);
            match fx.kind {
                ExpressionKind::Unary(UnaryOp::Negative, inner) => {
                    let inner = *inner;
                    Expression { span: span.merge(inner.span), kind: inner.kind }
                },
                kind => Expression::new_unary(span, op, Box::new(Expression { span: fx.span, kind })),
            }
        },
        ExpressionKind::Tree(x) => Expression::new_tree(span, Box::new(fold_owned(*x))),
        ExpressionKind::Constant(v) => Expression::new_constant(span, v),
    }
}

/// Replaces every statically known arithmetic subtree by its value and cancels
/// double negations. Dice subtrees, divisions by zero and results that would
/// overflow are left as they stand.
pub fn fold_expression(expression: &mut Expression)
    ensures
        *final(expression) == folded(*old(expression)),
{
    let mut e = Expression::new_constant(Span::new(0, 0), 0);
    std::mem::swap(expression, &mut e);
    *expression = fold_owned(e);
}

} // verus!
