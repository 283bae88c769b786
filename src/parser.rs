use vstd::prelude::*;

use crate::lang::merged;
use crate::lang::BinaryOp;
use crate::lang::Expression;
use crate::lang::ExpressionKind;
use crate::lang::Span;
use crate::lang::TokenKind;
use crate::lang::UnaryOp;
use crate::lexer::is_digit;
use crate::lexer::lemma_next_tok;
use crate::lexer::lemma_run_end;
use crate::lexer::run_end;
use crate::lexer::next_tok;
use crate::lexer::next_token;

verus! {

/// Why a text is not an expression.
#[derive(Clone, Copy, Debug, PartialEq, Eq, Structural)]
pub enum ParseError {
    /// A run of bytes that starts no token.
    Lex(Span),
    /// A token where an operand or a closing parenthesis was needed.
    Unexpected(TokenKind, Span),
    /// A literal above the largest 64-bit integer.
    NumericOverflow(Span),
}

/// The binding power of a negation's operand.
pub const UNARY_PRIORITY: u32 = 3;

/// Left binding power, right binding power and operator of an infix token.
pub open spec fn binding(k: TokenKind) -> Option<(u32, u32, BinaryOp)> {
    match k {
        TokenKind::Plus => Some((1u32, 1u32, BinaryOp::Add)),
        TokenKind::Dash => Some((1u32, 1u32, BinaryOp::Minus)),
        TokenKind::Asterisk => Some((2u32, 2u32, BinaryOp::Multiply)),
        TokenKind::ForwardSlash => Some((2u32, 2u32, BinaryOp::Divide)),
        TokenKind::Dice => Some((4u32, 3u32, BinaryOp::Dice)),
        _ => None,
    }
}

/// How tightly a token binds the expression on its left; zero for a token that is no operator.
pub open spec fn lbp(k: TokenKind) -> u32 {
    match binding(k) {
        Some(b) => b.0,
        None => 0,
    }
}

/// The base-10 value of the digits in `[start, end)`.
pub open spec fn literal_value(src: Seq<u8>, start: int, end: int) -> int
    decreases end - start,
{
    if end <= start {
        0
    } else {
        literal_value(src, start, end - 1) * 10 + (src[end - 1] - 48)
    }
}

/// One operand at offset `at`: a negation, a literal or a parenthesised group.
/// The result carries the offset after the operand.
pub open spec fn prefix_spec(src: Seq<u8>, at: int) -> Result<(Expression, int), ParseError>
    decreases src.len() - at, 0int,
{
    let t = next_tok(src, at);
    let after = t.1.end as int;
    if after <= at || after > src.len() {
        // only the end token consumes nothing
        Err(ParseError::Unexpected(t.0, t.1))
    } else {
        match t.0 {
            TokenKind::Dash => match expr_spec(src, after, UNARY_PRIORITY) {
                Ok((x, p)) => Ok((
                    Expression {
                        span: merged(t.1, x.span),
                        kind: ExpressionKind::Unary(UnaryOp::Negative, Box::new(x)),
                    },
                    p,
                )),
                Err(e) => Err(e),
            },
            TokenKind::Number => {
                let v = literal_value(src, t.1.start as int, after);
                if v > i64::MAX {
                    Err(ParseError::NumericOverflow(t.1))
                } else {
                    Ok((Expression { span: t.1, kind: ExpressionKind::Constant(v as i64) }, after))
                }
            },
            TokenKind::LeftParenthesis => match expr_spec(src, after, 0) {
                Ok((x, p)) => {
                    let c = next_tok(src, p);
                    if c.0 == TokenKind::RightParenthesis {
                        Ok((
                            Expression { span: merged(t.1, c.1), kind: ExpressionKind::Tree(Box::new(x)) },
                            c.1.end as int,
                        ))
                    } else {
                        Err(ParseError::Unexpected(c.0, c.1))
                    }
                },
                Err(e) => Err(e),
            },
            TokenKind::UnexpectedToken => Err(ParseError::Lex(t.1)),
            _ => Err(ParseError::Unexpected(t.0, t.1)),
        }
    }
}

/// An expression at offset `at` whose operators bind tighter than `min_bp`.
pub open spec fn expr_spec(src: Seq<u8>, at: int, min_bp: u32) -> Result<(Expression, int), ParseError>
    decreases src.len() - at, 1int,
{
    match prefix_spec(src, at) {
        Ok((left, p)) => if p <= at || p > src.len() {
            Ok((left, p))
        } else {
            climb_spec(src, p, min_bp, left)
        },
        Err(e) => Err(e),
    }
}

/// Extends `left`, which ends at `at`, with the operators that bind tighter than `min_bp`.
pub open spec fn climb_spec(src: Seq<u8>, at: int, min_bp: u32, left: Expression) -> Result<(Expression, int), ParseError>
    decreases src.len() - at, 0int,
{
    let t = next_tok(src, at);
    let after = t.1.end as int;
    match binding(t.0) {
        Some((l, r, op)) => if l <= min_bp || after <= at || after > src.len() {
            Ok((left, at))
        } else {
            match expr_spec(src, after, r) {
                Ok((right, p)) => if p <= at || p > src.len() {
                    Ok((left, at))
                } else {
                    climb_spec(
                        src,
                        p,
                        min_bp,
                        Expression {
                            span: merged(left.span, right.span),
                            kind: ExpressionKind::Binary(op, Box::new(left), Box::new(right)),
                        },
                    )
                },
                Err(e) => Err(e),
            }
        },
        None => Ok((left, at)),
    }
}

/// The expression at the start of `src`. What follows a complete expression is not read.
pub open spec fn parse_spec(src: Seq<u8>) -> Result<Expression, ParseError> {
    match expr_spec(src, 0, 0) {
        Ok((e, _)) => Ok(e),
        Err(e) => Err(e),
    }
}

/// Every node of `e` covers exactly its own text of `src`: a literal its digits,
/// a negation its `-` and its operand, a group its parentheses and what they
/// hold, and an operator node the merge of its operands' spans.
pub open spec fn spans_ok(src: Seq<u8>, e: Expression) -> bool
    decreases e,
{
    match e.kind {
        ExpressionKind::Constant(v) => {
            &&& e.span.start < e.span.end <= src.len()
            &&& forall|j: int| e.span.start <= j < e.span.end ==> is_digit(#[trigger] src[j])
            &&& literal_value(src, e.span.start as int, e.span.end as int) == v
        },
        ExpressionKind::Unary(_, x) => {
            &&& src[e.span.start as int] == 45
            &&& e.span.start < x.span.start
            &&& e.span.end == x.span.end
            &&& spans_ok(src, *x)
        },
        ExpressionKind::Tree(x) => {
            &&& src[e.span.start as int] == 40
            &&& src[e.span.end - 1] == 41
            &&& e.span.start < x.span.start
            &&& x.span.end < e.span.end
            &&& spans_ok(src, *x)
        },
        ExpressionKind::Binary(_, l, r) => {
            &&& e.span == merged(l.span, r.span)
            &&& l.span.end <= r.span.start
            &&& spans_ok(src, *l)
            &&& spans_ok(src, *r)
        },
    }
}

proof fn lemma_prefix_spans(src: Seq<u8>, at: int)
    requires
        0 <= at <= src.len(),
        src.len() <= usize::MAX,
    ensures
        prefix_spec(src, at) is Ok ==> {
            let (e, p) = prefix_spec(src, at)->Ok_0;
            &&& at <= e.span.start <= e.span.end <= p <= src.len()
            &&& at < p
            &&& spans_ok(src, e)
        },
    decreases src.len() - at, 0int,
{
    lemma_next_tok(src, at);
    let t = next_tok(src, at);
    let after = t.1.end as int;
    if at < after <= src.len() {
        if t.0 == TokenKind::Dash {
            lemma_expr_spans(src, after, UNARY_PRIORITY);
        } else if t.0 == TokenKind::LeftParenthesis {
            lemma_expr_spans(src, after, 0);
            if expr_spec(src, after, 0) is Ok {
                lemma_next_tok(src, expr_spec(src, after, 0)->Ok_0.1);
            }
        } else if t.0 == TokenKind::Number {
            lemma_literal_nonneg(src, t.1.start as int, after);
        }
    }
}

proof fn lemma_expr_spans(src: Seq<u8>, at: int, min_bp: u32)
    requires
        0 <= at <= src.len(),
        src.len() <= usize::MAX,
    ensures
        expr_spec(src, at, min_bp) is Ok ==> {
            let (e, p) = expr_spec(src, at, min_bp)->Ok_0;
            &&& at <= e.span.start <= e.span.end <= p <= src.len()
            &&& at < p
            &&& spans_ok(src, e)
        },
    decreases src.len() - at, 1int,
{
    lemma_prefix_spans(src, at);
    if prefix_spec(src, at) is Ok {
        let (left, p) = prefix_spec(src, at)->Ok_0;
        if at < p <= src.len() {
            lemma_climb_spans(src, p, min_bp, left);
        }
    }
}

proof fn lemma_climb_spans(src: Seq<u8>, at: int, min_bp: u32, left: Expression)
    requires
        0 <= at <= src.len(),
        src.len() <= usize::MAX,
        left.span.start <= left.span.end <= at,
        spans_ok(src, left),
    ensures
        climb_spec(src, at, min_bp, left) is Ok ==> {
            let (e, p) = climb_spec(src, at, min_bp, left)->Ok_0;
            &&& e.span.start == left.span.start
            &&& e.span.start <= e.span.end <= p <= src.len()
            &&& at <= p
            &&& spans_ok(src, e)
        },
    decreases src.len() - at, 0int,
{
    lemma_next_tok(src, at);
    let t = next_tok(src, at);
    let after = t.1.end as int;
    if binding(t.0) is Some {
        let (l, r, op) = binding(t.0)->Some_0;
        if l > min_bp && at < after <= src.len() {
            lemma_expr_spans(src, after, r);
            if expr_spec(src, after, r) is Ok {
                let (right, p) = expr_spec(src, after, r)->Ok_0;
                if at < p <= src.len() {
                    let joined = Expression {
                        span: merged(left.span, right.span),
                        kind: ExpressionKind::Binary(op, Box::new(left), Box::new(right)),
                    };
                    assert(spans_ok(src, joined));
                    lemma_climb_spans(src, p, min_bp, joined);
                }
            }
        }
    }
}

/// Every node of a parsed tree covers exactly its own text.
pub proof fn lemma_parse_spans(src: Seq<u8>)
    requires
        src.len() <= usize::MAX,
    ensures
        parse_spec(src) is Ok ==> spans_ok(src, parse_spec(src)->Ok_0) && parse_spec(src)->Ok_0.span.end <= src.len(),
{
    lemma_expr_spans(src, 0, 0);
}

/// A parser over a text with one token of lookahead.
pub struct Parser<'a> {
    src: &'a [u8],
    at: usize,
    tok: (TokenKind, Span),
}

impl<'a> Parser<'a> {
    pub closed spec fn text(&self) -> Seq<u8> {
        self.src@
    }

    /// The offset at which the current token is looked for.
    pub closed spec fn offset(&self) -> int {
        self.at as int
    }

    /// The current token.
    pub closed spec fn current(&self) -> (TokenKind, Span) {
        self.tok
    }

    pub closed spec fn wf(&self) -> bool {
        &&& self.at <= self.src@.len()
        &&& self.tok == next_tok(self.src@, self.at as int)
        &&& self.at <= self.tok.1.start <= self.tok.1.end <= self.src@.len()
        &&& (self.tok.0 != TokenKind::End ==> self.tok.1.start < self.tok.1.end)
        &&& (self.tok.0 == TokenKind::Number ==> self.tok.1.end as int == run_end(self.src@, self.tok.1.start as int, true))
    }

    pub fn new(src: &'a [u8]) -> (r: Parser<'a>)
        ensures
            r.wf(),
            r.text() == src@,
            r.offset() == 0,
    {
        let tok = next_token(src, 0);
        Parser { src, at: 0, tok }
    }

    pub fn peek_token(&self) -> (r: (TokenKind, Span))
        requires
            self.wf(),
        ensures
            r == self.current(),
    {
        self.tok
    }

    pub fn peek_kind(&self) -> (r: TokenKind)
        requires
            self.wf(),
        ensures
            r == self.current().0,
    {
        self.tok.0
    }

    /// Moves past the current token.
    pub fn take_token(&mut self) -> (r: (TokenKind, Span))
        requires
            old(self).wf(),
        ensures
            final(self).wf(),
            r == old(self).current(),
            final(self).text() == old(self).text(),
            final(self).offset() == old(self).current().1.end,
    {
        let t = self.tok;
        self.at = t.1.end;
        self.tok = next_token(self.src, self.at);
        t
    }

    pub fn is(&self, kind: TokenKind) -> (r: bool)
        requires
            self.wf(),
        ensures
            r == (self.current().0 == kind),
    {
        self.tok.0 == kind
    }

    pub fn not(&self, kind: TokenKind) -> (r: bool)
        requires
            self.wf(),
        ensures
            r == (self.current().0 != kind),
    {
        self.tok.0 != kind
    }

    /// Moves past the current token where it is of kind `kind`, and says whether it did.
    pub fn when(&mut self, kind: TokenKind) -> (r: bool)
        requires
            old(self).wf(),
        ensures
            final(self).wf(),
            final(self).text() == old(self).text(),
            r == (old(self).current().0 == kind),
            r ==> final(self).offset() == old(self).current().1.end,
            !r ==> *final(self) == *old(self),
    {
        if self.tok.0 == kind {
            self.take_token();
            true
        } else {
            false
        }
    }

    /// Moves past the current token and gives its kind.
    pub fn take_kind(&mut self) -> (r: TokenKind)
        requires
            old(self).wf(),
        ensures
            final(self).wf(),
            final(self).text() == old(self).text(),
            r == old(self).current().0,
            final(self).offset() == old(self).current().1.end,
    {
        self.take_token().0
    }

    /// Moves past the current token where it is of kind `kind`; hands it back either way.
    pub fn expect(&mut self, kind: TokenKind) -> (r: Result<(TokenKind, Span), (TokenKind, Span)>)
        requires
            old(self).wf(),
        ensures
            final(self).wf(),
            final(self).text() == old(self).text(),
            old(self).current().0 == kind ==> r == Ok::<(TokenKind, Span), (TokenKind, Span)>(old(self).current())
                && final(self).offset() == old(self).current().1.end,
            old(self).current().0 != kind ==> r == Err::<(TokenKind, Span), (TokenKind, Span)>(old(self).current())
                && *final(self) == *old(self),
    {
        if self.tok.0 == kind {
            Ok(self.take_token())
        } else {
            Err(self.tok)
        }
    }

    fn literal(&self, start: usize, end: usize) -> (r: Option<i64>)
        requires
            self.wf(),
            start <= end <= self.src@.len(),
            forall|i: int| start <= i < end ==> is_digit(#[trigger] self.src@[i]),
        ensures
            r == if literal_value(self.src@, start as int, end as int) <= i64::MAX {
                Some(literal_value(self.src@, start as int, end as int) as i64)
            } else {
                None::<i64>
            },
    {
        let mut v: i64 = 0;
        let mut i = start;
        while i < end
            invariant
                start <= i <= end <= self.src@.len(),
                forall|j: int| start <= j < end ==> is_digit(#[trigger] self.src@[j]),
                v == literal_value(self.src@, start as int, i as int),
                0 <= v,
            decreases end - i,
        {
            assert(is_digit(self.src@[i as int]));
            let d = (self.src[i] - 48) as i64;
            if v > (i64::MAX - d) / 10 {
                assert(v * 10 + d > i64::MAX) by (nonlinear_arith)
                    requires v > (i64::MAX - d) / 10, 0 <= d <= 9;
                proof {
                    lemma_literal_grows(self.src@, start as int, i as int + 1, end as int);
                }
                return None;
            }
            assert(v * 10 + d <= i64::MAX) by (nonlinear_arith)
                requires 0 <= v <= (i64::MAX - d) / 10, 0 <= d <= 9;
            v = v * 10 + d;
            i = i + 1;
        }
        Some(v)
    }
}

/// `r` is what `s`, the outcome of a parsing step that started at `at`,
/// describes, and `p` is where it stopped.
pub open spec fn outcome(r: Result<Expression, ParseError>, s: Result<(Expression, int), ParseError>, at: int, p: int) -> bool {
    match s {
        Ok((e, q)) => r == Ok::<Expression, ParseError>(e) && p == q && at < q,
        Err(er) => r == Err::<Expression, ParseError>(er),
    }
}

impl<'a> Parser<'a> {
    fn prefix(&mut self) -> (r: Result<Expression, ParseError>)
        requires
            old(self).wf(),
        ensures
            final(self).wf(),
            final(self).text() == old(self).text(),
            outcome(r, prefix_spec(old(self).text(), old(self).offset()), old(self).offset(), final(self).offset()),
        decreases old(self).src@.len() - old(self).at, 0int,
    {
        let t = self.peek_token();
        match t.0 {
            TokenKind::Dash => {
                self.take_token();
                match self.expr_with_precedence(UNARY_PRIORITY) {
                    Ok(x) => {
                        let span = t.1.merge(x.span);
                        Ok(Expression::new_unary(span, UnaryOp::Negative, Box::new(x)))
                    },
                    Err(e) => Err(e),
                }
            },
            TokenKind::Number => {
                proof {
                    lemma_run_end(self.src@, t.1.start as int);
                }
                self.take_token();
                match self.literal(t.1.start, t.1.end) {
                    Some(v) => Ok(Expression::new_constant(t.1, v)),
                    None => Err(ParseError::NumericOverflow(t.1)),
                }
            },
            TokenKind::LeftParenthesis => {
                self.take_token();
                match self.expr_with_precedence(0) {
                    Ok(x) => match self.expect(TokenKind::RightParenthesis) {
                        Ok(c) => Ok(Expression::new_tree(t.1.merge(c.1), Box::new(x))),
                        Err(c) => Err(ParseError::Unexpected(c.0, c.1)),
                    },
                    Err(e) => Err(e),
                }
            },
            TokenKind::UnexpectedToken => Err(ParseError::Lex(t.1)),
            _ => Err(ParseError::Unexpected(t.0, t.1)),
        }
    }

    /// Parses an operand and every operator after it that binds tighter than `min_bp`.
    fn expr_with_precedence(&mut self, min_bp: u32) -> (r: Result<Expression, ParseError>)
        requires
            old(self).wf(),
        ensures
            final(self).wf(),
            final(self).text() == old(self).text(),
            outcome(r, expr_spec(old(self).text(), old(self).offset(), min_bp), old(self).offset(), final(self).offset()),
            r is Ok ==> lbp(final(self).current().0) <= min_bp,
        decreases old(self).src@.len() - old(self).at, 1int,
    {
        let ghost at0 = self.at as int;
        let ghost text = self.src@;
        let mut left = match self.prefix() {
            Ok(e) => e,
            Err(e) => return Err(e),
        };
        loop
            invariant
                self.wf(),
                self.src@ == text,
                text == old(self).src@,
                at0 == old(self).at,
                at0 < self.at <= text.len(),
                expr_spec(text, at0, min_bp) == climb_spec(text, self.at as int, min_bp, left),
            decreases text.len() - self.at,
        {
            let t = self.peek_token();
            let (left_bp, right_bp, op) = match t.0 {
                TokenKind::Plus => (1u32, 1u32, BinaryOp::Add),
                TokenKind::Dash => (1u32, 1u32, BinaryOp::Minus),
                TokenKind::Asterisk => (2u32, 2u32, BinaryOp::Multiply),
                TokenKind::ForwardSlash => (2u32, 2u32, BinaryOp::Divide),
                TokenKind::Dice => (4u32, 3u32, BinaryOp::Dice),
                _ => return Ok(left),
            };
            if left_bp <= min_bp {
                return Ok(left);
            }
            self.take_token();
            let right = match self.expr_with_precedence(right_bp) {
                Ok(e) => e,
                Err(e) => return Err(e),
            };
            let span = left.span.merge(right.span);
            left = Expression::new_binary(span, op, Box::new(left), Box::new(right));
        }
    }
}

/// Parses the expression at the start of `src`; what follows it is not read.
pub fn parse_expression(src: &[u8]) -> (r: Result<Expression, ParseError>)
    ensures
        r == parse_spec(src@),
        r is Ok ==> spans_ok(src@, r->Ok_0) && r->Ok_0.span.end <= src@.len(),
{
    let n: usize = src.len();
    proof {
        assert(src@.len() == n);
        lemma_parse_spans(src@);
    }
    let mut parser = Parser::new(src);
    parser.expr_with_precedence(0)
}

proof fn lemma_literal_grows(src: Seq<u8>, start: int, i: int, end: int)
    requires
        start <= i <= end <= src.len(),
        forall|j: int| start <= j < end ==> is_digit(#[trigger] src[j]),
    ensures
        literal_value(src, start, i) <= literal_value(src, start, end),
    decreases end - i,
{
    if i < end {
        lemma_literal_grows(src, start, i + 1, end);
        lemma_literal_nonneg(src, start, i);
    }
}

proof fn lemma_literal_nonneg(src: Seq<u8>, start: int, i: int)
    requires
        start <= i <= src.len(),
        forall|j: int| start <= j < i ==> is_digit(#[trigger] src[j]),
    ensures
        literal_value(src, start, i) >= 0,
    decreases i - start,
{
    if i > start {
        lemma_literal_nonneg(src, start, i - 1);
    }
}

} // verus!
