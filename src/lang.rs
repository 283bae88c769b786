use vstd::prelude::*;

verus! {

/// A half-open byte range `[start, end)` of the source text.
#[derive(Clone, Copy, Debug, PartialEq, Eq, Structural)]
pub struct Span {
    pub start: usize,
    pub end: usize,
}

pub open spec fn merged(a: Span, b: Span) -> Span {
    Span {
        start: if a.start <= b.start { a.start } else { b.start },
        end: if a.end >= b.end { a.end } else { b.end },
    }
}

impl Span {
    pub fn new(start: usize, end: usize) -> (r: Span)
        ensures
            r.start == start,
            r.end == end,
    {
        Span { start, end }
    }

    /// The smallest span that covers both spans.
    pub fn merge(&self, other: Span) -> (r: Span)
        ensures
            r == merged(*self, other),
    {
        let start = if self.start <= other.start { self.start } else { other.start };
        let end = if self.end >= other.end { self.end } else { other.end };
        Span { start, end }
    }

    pub fn range(&self) -> (r: std::ops::Range<usize>)
        ensures
            r.start == self.start,
            r.end == self.end,
    {
        std::ops::Range { start: self.start, end: self.end }
    }
}

#[derive(Clone, Copy, Debug, PartialEq, Eq, Structural)]
pub enum TokenKind {
    End,
    Dice,
    Number,
    LeftBrace,
    RightBrace,
    LeftBracket,
    RightBracket,
    LeftParenthesis,
    RightParenthesis,
    Dash,
    Plus,
    Asterisk,
    ForwardSlash,
    Percentage,
    Caret,
    Comma,
    UnexpectedToken,
}

#[derive(Clone, Copy, Debug, PartialEq, Eq, Structural)]
pub enum BinaryOp {
    Dice,
    Add,
    Minus,
    Multiply,
    Divide,
}

#[derive(Clone, Copy, Debug, PartialEq, Eq, Structural)]
pub enum UnaryOp {
    Negative,
}

#[derive(Debug)]
pub struct Expression {
    pub span: Span,
    pub kind: ExpressionKind,
}

#[derive(Debug)]
pub enum ExpressionKind {
    Binary(BinaryOp, Box<Expression>, Box<Expression>),
    Unary(UnaryOp, Box<Expression>),
    Tree(Box<Expression>),
    Constant(i64),
}

impl Expression {
    pub fn new_binary(span: Span, binary_op: BinaryOp, left: Box<Expression>, right: Box<Expression>) -> (r: Expression)
        ensures
            r == (Expression { span, kind: ExpressionKind::Binary(binary_op, left, right) }),
    {
        Expression { span, kind: ExpressionKind::Binary(binary_op, left, right) }
    }

    pub fn new_unary(span: Span, unary_op: UnaryOp, expr: Box<Expression>) -> (r: Expression)
        ensures
            r == (Expression { span, kind: ExpressionKind::Unary(unary_op, expr) }),
    {
        Expression { span, kind: ExpressionKind::Unary(unary_op, expr) }
    }

    pub fn new_constant(span: Span, constant: i64) -> (r: Expression)
        ensures
            r == (Expression { span, kind: ExpressionKind::Constant(constant) }),
    {
        Expression { span, kind: ExpressionKind::Constant(constant) }
    }

    pub fn new_tree(span: Span, expr: Box<Expression>) -> (r: Expression)
        ensures
            r == (Expression { span, kind: ExpressionKind::Tree(expr) }),
    {
        Expression { span, kind: ExpressionKind::Tree(expr) }
    }

    pub fn is_number(&self) -> (r: bool)
        ensures
            r == (self.kind is Constant),
    {
        match &self.kind {
            ExpressionKind::Constant(_) => true,
            _ => false,
        }
    }
}

} // verus!
