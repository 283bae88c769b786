use roll::dice::roll_dice;
use roll::dice::EvalError;
use roll::eval::evaluate_expression;
use roll::eval::evaluate_str;
use roll::eval::Error;
use roll::eval::Step;
use roll::fold_expression;
use roll::lang::BinaryOp;
use roll::lang::Expression;
use roll::lang::ExpressionKind;
use roll::lang::Span;
use roll::lang::TokenKind;
use roll::parser::parse_expression;
use roll::parser::ParseError;
use roll::parser::Parser;

fn render(e: &Expression) -> String {
    match &e.kind {
        ExpressionKind::Binary(BinaryOp::Dice, l, r) => format!("({}d{})", render(l), render(r)),
        ExpressionKind::Binary(op, l, r) => {
            let c = match op {
                BinaryOp::Add => '+',
                BinaryOp::Minus => '-',
                BinaryOp::Multiply => '*',
                BinaryOp::Divide => '/',
                BinaryOp::Dice => 'd',
            };
            format!("({} {} {})", render(l), c, render(r))
        }
        ExpressionKind::Unary(_, x) => format!("(-{})", render(x)),
        ExpressionKind::Tree(x) => format!("({})", render(x)),
        ExpressionKind::Constant(v) => format!("{}", v),
    }
}

fn eval(text: &str) -> Result<i64, Error> {
    let mut trace: Vec<Step> = Vec::new();
    evaluate_str(text.as_bytes(), &mut trace)
}

#[test]
fn dice_chain_groups_to_the_right() {
    let e = parse_expression("1d2d3".as_bytes()).unwrap();
    assert_eq!(render(&e), "(1d(2d3))");
    assert_eq!(e.span, Span::new(0, 5));
}

#[test]
fn dice_binds_tighter_than_multiply() {
    let e = parse_expression("2d6*3".as_bytes()).unwrap();
    assert_eq!(render(&e), "((2d6) * 3)");
    let e = parse_expression("1 + 2 * 3 - 4".as_bytes()).unwrap();
    assert_eq!(render(&e), "((1 + (2 * 3)) - 4)");
}

#[test]
fn groups_and_negation_keep_their_spans() {
    let e = parse_expression("(1d6)d6".as_bytes()).unwrap();
    assert_eq!(render(&e), "(((1d6))d6)");
    match &e.kind {
        ExpressionKind::Binary(_, l, _) => assert_eq!(l.span, Span::new(0, 5)),
        _ => panic!("not a roll"),
    }
    let e = parse_expression("-5".as_bytes()).unwrap();
    assert_eq!(e.span, Span::new(0, 2));
}

#[test]
fn arithmetic_evaluates_with_and_without_folding() {
    assert_eq!(eval("2 * (3 + 4)"), Ok(14));
    let mut e = parse_expression("2 * (3 + 4)".as_bytes()).unwrap();
    fold_expression(&mut e);
    let mut trace: Vec<Step> = Vec::new();
    assert_eq!(evaluate_expression(&e, &mut trace), Ok(14));
    assert_eq!(eval("-6 - 5 + 4 - 9"), Ok(-16));
}

#[test]
fn division_truncates_in_evaluation() {
    assert_eq!(eval("7 / 2"), Ok(3));
    assert_eq!(eval("-7 / 2"), Ok(-3));
    assert_eq!(eval("1 / 0"), Err(Error::Eval(EvalError::DivideByZero)));
}

#[test]
fn rolls_stay_in_range() {
    for _ in 0..200 {
        let v = eval("2d(2 * 2)").unwrap();
        assert!((2..=8).contains(&v));
    }
    assert_eq!(eval("3d1"), Ok(3));
}

#[test]
fn zero_dice_roll_nothing() {
    assert_eq!(eval("0d6"), Ok(0));
    assert_eq!(eval("0d0"), Ok(0));
    assert_eq!(roll_dice(0, 0).unwrap().len(), 0);
}

#[test]
fn negative_count_and_bad_faces_fail() {
    assert_eq!(eval("(-1)d6"), Err(Error::Eval(EvalError::NegativeDiceCount)));
    assert_eq!(eval("2d0"), Err(Error::Eval(EvalError::NonPositiveFaces)));
    assert_eq!(roll_dice(-2, 6).unwrap_err(), EvalError::NegativeDiceCount);
}

#[test]
fn roll_dice_draws_count_dice() {
    let rolls = roll_dice(5, 3).unwrap();
    assert_eq!(rolls.len(), 5);
    assert!(rolls.iter().all(|r| (1..=3).contains(r)));
}

#[test]
fn incomplete_input_is_a_parse_error() {
    assert_eq!(eval("1 +"), Err(Error::Parse(ParseError::Unexpected(TokenKind::End, Span::new(3, 3)))));
    assert_eq!(eval("(1 + 2"), Err(Error::Parse(ParseError::Unexpected(TokenKind::End, Span::new(6, 6)))));
    assert_eq!(eval("* 2"), Err(Error::Parse(ParseError::Unexpected(TokenKind::Asterisk, Span::new(0, 1)))));
    assert_eq!(eval("?? 2"), Err(Error::Parse(ParseError::Lex(Span::new(0, 2)))));
}

#[test]
fn literal_overflow_is_reported() {
    assert_eq!(eval("9223372036854775807"), Ok(i64::MAX));
    assert_eq!(eval("9223372036854775808"), Err(Error::Parse(ParseError::NumericOverflow(Span::new(0, 19)))));
    assert_eq!(eval("-9223372036854775807 - 2"), Err(Error::Eval(EvalError::Overflow)));
}

#[test]
fn trailing_text_is_not_read() {
    assert_eq!(eval("1 + 2 )"), Ok(3));
}

#[test]
fn trace_records_each_operator() {
    let mut trace: Vec<Step> = Vec::new();
    assert_eq!(evaluate_str("-(1 + 2) * 1d1".as_bytes(), &mut trace), Ok(-3));
    let spans: Vec<(usize, usize, i64)> = trace.iter().map(|s| (s.span.start, s.span.end, s.value)).collect();
    assert_eq!(spans, vec![(2, 7, 3), (0, 8, -3), (11, 14, 1), (0, 14, -3)]);
    let roll = trace[2].dice.as_ref().unwrap();
    assert_eq!((roll.count, roll.faces, roll.rolls.clone()), (1, 1, vec![1]));
}

#[test]
fn expect_moves_only_on_a_match() {
    let mut p = Parser::new("( 1".as_bytes());
    assert_eq!(p.expect(TokenKind::Number), Err((TokenKind::LeftParenthesis, Span::new(0, 1))));
    assert_eq!(p.peek_kind(), TokenKind::LeftParenthesis);
    assert_eq!(p.expect(TokenKind::LeftParenthesis), Ok((TokenKind::LeftParenthesis, Span::new(0, 1))));
    assert_eq!(p.peek_token(), (TokenKind::Number, Span::new(2, 3)));
    assert_eq!(p.take_token(), (TokenKind::Number, Span::new(2, 3)));
    assert_eq!(p.peek_kind(), TokenKind::End);
}

#[test]
fn lookahead_tests_and_takes() {
    let mut p = Parser::new("1 + 2".as_bytes());
    assert!(p.is(TokenKind::Number));
    assert!(p.not(TokenKind::Plus));
    assert!(!p.when(TokenKind::Plus));
    assert_eq!(p.take_kind(), TokenKind::Number);
    assert!(p.when(TokenKind::Plus));
    assert_eq!(p.peek_token(), (TokenKind::Number, Span::new(4, 5)));
}
