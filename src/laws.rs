use vstd::prelude::*;

use crate::dice::dice_result;
use crate::dice::total;
use crate::dice::valid_rolls;
use crate::eval::dice_free;
use crate::eval::evals_to;
use crate::eval::operand;
use crate::eval::operands;
use crate::eval::step_result;
use crate::eval::value;
use crate::fold::extracted;
use crate::fold::folded;
use crate::lang::BinaryOp;
use crate::lang::Expression;
use crate::lang::ExpressionKind;
use crate::lang::UnaryOp;

verus! {

/// A tree without rolls has one outcome: its value.
pub proof fn lemma_dice_free_deterministic(e: Expression, res: Result<i64, crate::dice::EvalError>)
    requires
        dice_free(e),
        evals_to(e, res),
    ensures
        res == value(e),
    decreases e,
{
    match e.kind {
        ExpressionKind::Constant(_) => {},
        ExpressionKind::Tree(x) => {
            lemma_dice_free_deterministic(*x, res);
        },
        ExpressionKind::Unary(_, x) => {
            if exists|v: i64| #[trigger] operand(v) && evals_to(*x, Ok(v)) && res == crate::eval::negate(v) {
                let v = choose|v: i64| #[trigger] operand(v) && evals_to(*x, Ok(v)) && res == crate::eval::negate(v);
                lemma_dice_free_deterministic(*x, Ok(v));
            } else {
                lemma_dice_free_deterministic(*x, res);
            }
        },
        ExpressionKind::Binary(op, l, r) => {
            if res is Err && evals_to(*l, res) {
                lemma_dice_free_deterministic(*l, res);
            } else if exists|a: i64| #[trigger] operand(a) && evals_to(*l, Ok(a)) && res is Err && evals_to(*r, res) {
                let a = choose|a: i64| #[trigger] operand(a) && evals_to(*l, Ok(a)) && res is Err && evals_to(*r, res);
                lemma_dice_free_deterministic(*l, Ok(a));
                lemma_dice_free_deterministic(*r, res);
            } else {
                let (a, b) = choose|a: i64, b: i64|
                    #[trigger] operands(a, b) && evals_to(*l, Ok(a)) && evals_to(*r, Ok(b)) && step_result(op, a, b, res);
                lemma_dice_free_deterministic(*l, Ok(a));
                lemma_dice_free_deterministic(*r, Ok(b));
            }
        },
    }
}

proof fn lemma_total_bounds(rolls: Seq<i64>, faces: int)
    requires
        forall|i: int| 0 <= i < rolls.len() ==> 1 <= #[trigger] rolls[i] <= faces,
    ensures
        rolls.len() <= total(rolls) <= rolls.len() * faces,
    decreases rolls.len(),
{
    if rolls.len() > 0 {
        let init = rolls.drop_last();
        assert forall|i: int| 0 <= i < init.len() implies 1 <= #[trigger] init[i] <= faces by {
            assert(init[i] == rolls[i]);
        }
        lemma_total_bounds(init, faces);
        assert(1 <= rolls.last() <= faces);
        assert(init.len() * faces + faces == rolls.len() * faces) by (nonlinear_arith)
            requires init.len() + 1 == rolls.len();
    }
}

/// Rolling `c` dice of `f` faces, where `c` and `f` come from operands without
/// rolls, gives a total between `c` (every die shows one) and `c * f` (every
/// die shows its largest face).
pub proof fn lemma_roll_in_range(e: Expression, c: i64, f: i64, v: i64)
    requires
        e.kind is Binary,
        e.kind->Binary_0 == BinaryOp::Dice,
        dice_free(*e.kind->Binary_1),
        dice_free(*e.kind->Binary_2),
        value(*e.kind->Binary_1) == Ok::<i64, crate::dice::EvalError>(c),
        value(*e.kind->Binary_2) == Ok::<i64, crate::dice::EvalError>(f),
        c > 0,
        f >= 1,
        evals_to(e, Ok(v)),
    ensures
        c <= v <= c * f,
        f == 1 ==> v == c,
{
    let l = *e.kind->Binary_1;
    let r = *e.kind->Binary_2;
    let res = Ok::<i64, crate::dice::EvalError>(v);
    let (a, b) = choose|a: i64, b: i64|
        #[trigger] operands(a, b) && evals_to(l, Ok(a)) && evals_to(r, Ok(b)) && step_result(BinaryOp::Dice, a, b, res);
    lemma_dice_free_deterministic(l, Ok(a));
    lemma_dice_free_deterministic(r, Ok(b));
    let rolls = choose|rolls: Seq<i64>| valid_rolls(c, f, rolls) && res == #[trigger] dice_result(c, f, rolls);
    lemma_total_bounds(rolls, f as int);
    if f == 1 {
        assert(rolls.len() * 1 == rolls.len());
    }
}

proof fn lemma_extracted_value(e: Expression)
    requires
        extracted(e) is Some,
    ensures
        value(e) == Ok::<i64, crate::dice::EvalError>(extracted(e)->Some_0),
    decreases e,
{
    match e.kind {
        ExpressionKind::Unary(UnaryOp::Negative, x) => {
            lemma_extracted_value(*x);
        },
        _ => {},
    }
}

/// Folding a tree without rolls keeps its value, wherever evaluating it succeeds.
pub proof fn lemma_fold_keeps_value(e: Expression)
    requires
        dice_free(e),
        value(e) is Ok,
    ensures
        value(folded(e)) == value(e),
    decreases e,
{
    match e.kind {
        ExpressionKind::Constant(_) => {},
        ExpressionKind::Tree(x) => {
            lemma_fold_keeps_value(*x);
        },
        ExpressionKind::Unary(op, x) => {
            lemma_fold_keeps_value(*x);
            let fx = folded(*x);
            match fx.kind {
                ExpressionKind::Unary(UnaryOp::Negative, inner) => {
                    let c = Expression { span: folded(e).span, kind: inner.kind };
                    assert(value(c) == value(*inner));
                },
                _ => {},
            }
        },
        ExpressionKind::Binary(op, l, r) => {
            lemma_fold_keeps_value(*l);
            lemma_fold_keeps_value(*r);
            let fl = folded(*l);
            let fr = folded(*r);
            if extracted(fl) is Some && extracted(fr) is Some {
                lemma_extracted_value(fl);
                lemma_extracted_value(fr);
            }
        },
    }
}

} // verus!
