use vstd::prelude::*;

use crate::dice::dice_result;
use crate::dice::dice_total;
use crate::dice::roll_dice;
use crate::dice::valid_rolls;
use crate::dice::EvalError;
use crate::fold::apply_binary;
use crate::fold::apply_op;
use crate::lang::BinaryOp;
use crate::lang::Expression;
use crate::lang::ExpressionKind;
use crate::lang::Span;
use crate::parser::parse_expression;
use crate::parser::parse_spec;
use crate::parser::ParseError;

verus! {

/// The dice of one roll: how many, how many faces, and what came up.
#[derive(Debug)]
pub struct DiceRoll {
    pub count: i64,
    pub faces: i64,
    pub rolls: Vec<i64>,
}

/// One evaluated operator node: its source span, its value and, for a roll, its dice.
#[derive(Debug)]
pub struct Step {
    pub span: Span,
    pub value: i64,
    pub dice: Option<DiceRoll>,
}

/// Why a text could not be evaluated.
#[derive(Clone, Copy, Debug, PartialEq, Eq, Structural)]
pub enum Error {
    Parse(ParseError),
    Eval(EvalError),
}

pub open spec fn negate(v: i64) -> Result<i64, EvalError> {
    if v == i64::MIN {
        Err(EvalError::Overflow)
    } else {
        Ok((-v) as i64)
    }
}

/// The result of an arithmetic operator on two values.
pub open spec fn arith_result(op: BinaryOp, a: i64, b: i64) -> Result<i64, EvalError> {
    match apply_op(op, a, b) {
        Some(v) => Ok(v),
        None => if op is Divide && b == 0 {
            Err(EvalError::DivideByZero)
        } else {
            Err(EvalError::Overflow)
        },
    }
}

/// `res` is what operator `op` can give on the values `a` and `b`.
pub open spec fn step_result(op: BinaryOp, a: i64, b: i64, res: Result<i64, EvalError>) -> bool {
    if op is Dice {
        exists|rolls: Seq<i64>| valid_rolls(a, b, rolls) && res == #[trigger] dice_result(a, b, rolls)
    } else {
        res == arith_result(op, a, b)
    }
}

/// A value that an operand took; it names the witness of an outcome.
pub open spec fn operand(v: i64) -> bool {
    true
}

/// The values that two operands took.
pub open spec fn operands(a: i64, b: i64) -> bool {
    true
}

/// `res` is a possible outcome of evaluating `e`: children left before right,
/// the first error ends the evaluation, and each roll may come up any way a
/// fair die can.
pub open spec fn evals_to(e: Expression, res: Result<i64, EvalError>) -> bool
    decreases e,
{
    match e.kind {
        ExpressionKind::Constant(v) => res == Ok::<i64, EvalError>(v),
        ExpressionKind::Tree(x) => evals_to(*x, res),
        ExpressionKind::Unary(_, x) => {
            ||| (exists|v: i64| #[trigger] operand(v) && evals_to(*x, Ok(v)) && res == negate(v))
            ||| (res is Err && evals_to(*x, res))
        },
        ExpressionKind::Binary(op, l, r) => {
            ||| (res is Err && evals_to(*l, res))
            ||| (exists|a: i64| #[trigger] operand(a) && evals_to(*l, Ok(a)) && res is Err && evals_to(*r, res))
            ||| (exists|a: i64, b: i64|
                #[trigger] operands(a, b) && evals_to(*l, Ok(a)) && evals_to(*r, Ok(b)) && step_result(op, a, b, res))
        },
    }
}

/// The number of operator nodes, each of which adds one step to a trace.
pub open spec fn op_count(e: Expression) -> nat
    decreases e,
{
    match e.kind {
        ExpressionKind::Constant(_) => 0,
        ExpressionKind::Tree(x) => op_count(*x),
        ExpressionKind::Unary(_, x) => 1 + op_count(*x),
        ExpressionKind::Binary(_, l, r) => 1 + op_count(*l) + op_count(*r),
    }
}

/// The tree holds no roll.
pub open spec fn dice_free(e: Expression) -> bool
    decreases e,
{
    match e.kind {
        ExpressionKind::Constant(_) => true,
        ExpressionKind::Tree(x) => dice_free(*x),
        ExpressionKind::Unary(_, x) => dice_free(*x),
        ExpressionKind::Binary(op, l, r) => !(op is Dice) && dice_free(*l) && dice_free(*r),
    }
}

/// The value of a tree without rolls.
pub open spec fn value(e: Expression) -> Result<i64, EvalError>
    decreases e,
{
    match e.kind {
        ExpressionKind::Constant(v) => Ok(v),
        ExpressionKind::Tree(x) => value(*x),
        ExpressionKind::Unary(_, x) => match value(*x) {
            Ok(v) => negate(v),
            Err(er) => Err(er),
        },
        ExpressionKind::Binary(op, l, r) => match value(*l) {
            Ok(a) => match value(*r) {
                Ok(b) => arith_result(op, a, b),
                Err(er) => Err(er),
            },
            Err(er) => Err(er),
        },
    }
}

fn arith(op: BinaryOp, a: i64, b: i64) -> (r: Result<i64, EvalError>)
    requires
        !(op is Dice),
    ensures
        r == arith_result(op, a, b),
{
    match apply_binary(op, a, b) {
        Some(v) => Ok(v),
        None => {
            if op == BinaryOp::Divide && b == 0 {
                Err(EvalError::DivideByZero)
            } else {
                Err(EvalError::Overflow)
            }
        },
    }
}

/// Evaluates `e`, rolling its dice, and appends one step to `trace` for each
/// operator node evaluated, children first.
pub fn evaluate_expression(e: &Expression, trace: &mut Vec<Step>) -> (r: Result<i64, EvalError>)
    ensures
        evals_to(*e, r),
        dice_free(*e) ==> r == value(*e),
        old(trace)@.len() <= final(trace)@.len(),
        final(trace)@.subrange(0, old(trace)@.len() as int) == old(trace)@,
        r is Ok ==> final(trace)@.len() == old(trace)@.len() + op_count(*e),
        r is Ok && (e.kind is Binary || e.kind is Unary) ==> {
            &&& final(trace)@.last().span == e.span
            &&& final(trace)@.last().value == r->Ok_0
        },
    decreases e,
{
    match &e.kind {
        ExpressionKind::Constant(v) => Ok(*v),
        ExpressionKind::Tree(x) => evaluate_expression(x, trace),
        ExpressionKind::Unary(_, x) => {
            let ghost t0 = trace@;
            match evaluate_expression(x, trace) {
                Ok(v) => {
                    assert(operand(v));
                    if v == i64::MIN {
                        Err(EvalError::Overflow)
                    } else {
                        trace.push(Step { span: e.span, value: -v, dice: None });
                        assert(trace@.subrange(0, t0.len() as int) =~= t0);
                        Ok(-v)
                    }
                },
                Err(er) => Err(er),
            }
        },
        ExpressionKind::Binary(op, lhs, rhs) => {
            let ghost t0 = trace@;
            let a = match evaluate_expression(lhs, trace) {
                Ok(a) => a,
                Err(er) => return Err(er),
            };
            let ghost t1 = trace@;
            let b = match evaluate_expression(rhs, trace) {
                Ok(b) => b,
                Err(er) => {
                    assert(evals_to(**lhs, Ok(a)));
                    assert(evals_to(**rhs, Err(er)));
                    assert(operand(a));
                    assert(trace@.subrange(0, t0.len() as int) =~= t0) by {
                        assert(trace@.subrange(0, t1.len() as int) == t1);
                    };
                    return Err(er);
                },
            };
            let ghost t2 = trace@;
            assert(operands(a, b));
            assert(t2.subrange(0, t0.len() as int) =~= t0) by {
                assert(t2.subrange(0, t1.len() as int) == t1);
            };
            if *op == BinaryOp::Dice {
                let rolls = match roll_dice(a, b) {
                    Ok(rolls) => rolls,
                    Err(er) => {
                        assert(evals_to(**lhs, Ok(a)));
                        assert(evals_to(**rhs, Ok(b)));
                        assert(valid_rolls(a, b, Seq::<i64>::empty()));
                        assert(step_result(*op, a, b, dice_result(a, b, Seq::<i64>::empty())));
                        assert(dice_result(a, b, Seq::<i64>::empty()) == Err::<i64, EvalError>(er));
                        assert(evals_to(*e, Err(er)));
                        return Err(er);
                    },
                };
                let res = dice_total(a, b, &rolls);
                assert(step_result(*op, a, b, dice_result(a, b, rolls@)));
                match res {
                    Ok(v) => {
                        trace.push(Step { span: e.span, value: v, dice: Some(DiceRoll { count: a, faces: b, rolls }) });
                        assert(trace@.subrange(0, t0.len() as int) =~= t0) by {
                            assert(trace@.subrange(0, t2.len() as int) =~= t2);
                        };
                        Ok(v)
                    },
                    Err(er) => Err(er),
                }
            } else {
                let res = arith(*op, a, b);
                match res {
                    Ok(v) => {
                        trace.push(Step { span: e.span, value: v, dice: None });
                        assert(trace@.subrange(0, t0.len() as int) =~= t0) by {
                            assert(trace@.subrange(0, t2.len() as int) =~= t2);
                        };
                        Ok(v)
                    },
                    Err(er) => Err(er),
                }
            }
        },
    }
}

/// Parses `input` and evaluates the expression it starts with.
pub fn evaluate_str(input: &[u8], trace: &mut Vec<Step>) -> (r: Result<i64, Error>)
    ensures
        parse_spec(input@) is Err ==> r == Err::<i64, Error>(Error::Parse(parse_spec(input@)->Err_0)),
        parse_spec(input@) is Ok ==> {
            let e = parse_spec(input@)->Ok_0;
            &&& r is Err ==> r == Err::<i64, Error>(Error::Eval(r->Err_0->Eval_0)) && evals_to(e, Err(r->Err_0->Eval_0))
            &&& r is Ok ==> evals_to(e, Ok(r->Ok_0))
            &&& dice_free(e) ==> r == match value(e) {
                Ok(v) => Ok::<i64, Error>(v),
                Err(er) => Err::<i64, Error>(Error::Eval(er)),
            }
        },
{
    match parse_expression(input) {
        Ok(e) => match evaluate_expression(&e, trace) {
            Ok(v) => Ok(v),
            Err(er) => Err(Error::Eval(er)),
        },
        Err(er) => Err(Error::Parse(er)),
    }
}

} // verus!
