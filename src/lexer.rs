use vstd::prelude::*;

use crate::lang::Span;
use crate::lang::TokenKind;

verus! {

pub open spec fn is_digit(b: u8) -> bool {
    48 <= b <= 57
}

pub open spec fn is_space(b: u8) -> bool {
    b == 32 || (9 <= b <= 13)
}

/// The kind of token that starts with byte `b`.
pub open spec fn kind_of(b: u8) -> TokenKind {
    if is_digit(b) {
        TokenKind::Number
    } else if b == 100 {
        TokenKind::Dice
    } else if b == 123 {
        TokenKind::LeftBrace
    } else if b == 125 {
        TokenKind::RightBrace
    } else if b == 91 {
        TokenKind::LeftBracket
    } else if b == 93 {
        TokenKind::RightBracket
    } else if b == 40 {
        TokenKind::LeftParenthesis
    } else if b == 41 {
        TokenKind::RightParenthesis
    } else if b == 45 {
        TokenKind::Dash
    } else if b == 43 {
        TokenKind::Plus
    } else if b == 42 {
        TokenKind::Asterisk
    } else if b == 47 {
        TokenKind::ForwardSlash
    } else if b == 37 {
        TokenKind::Percentage
    } else if b == 94 {
        TokenKind::Caret
    } else if b == 44 {
        TokenKind::Comma
    } else {
        TokenKind::UnexpectedToken
    }
}

fn token_kind(b: u8) -> (r: TokenKind)
    ensures
        r == kind_of(b),
{
    if 48 <= b && b <= 57 {
        TokenKind::Number
    } else if b == 100 {
        TokenKind::Dice
    } else if b == 123 {
        TokenKind::LeftBrace
    } else if b == 125 {
        TokenKind::RightBrace
    } else if b == 91 {
        TokenKind::LeftBracket
    } else if b == 93 {
        TokenKind::RightBracket
    } else if b == 40 {
        TokenKind::LeftParenthesis
    } else if b == 41 {
        TokenKind::RightParenthesis
    } else if b == 45 {
        TokenKind::Dash
    } else if b == 43 {
        TokenKind::Plus
    } else if b == 42 {
        TokenKind::Asterisk
    } else if b == 47 {
        TokenKind::ForwardSlash
    } else if b == 37 {
        TokenKind::Percentage
    } else if b == 94 {
        TokenKind::Caret
    } else if b == 44 {
        TokenKind::Comma
    } else {
        TokenKind::UnexpectedToken
    }
}

/// A byte that starts no token and is not whitespace.
pub open spec fn is_unknown(b: u8) -> bool {
    !is_space(b) && kind_of(b) == TokenKind::UnexpectedToken
}

/// The first offset at or after `pos` that holds no whitespace.
pub open spec fn skip_spaces(src: Seq<u8>, pos: int) -> int
    decreases src.len() - pos,
{
    if 0 <= pos < src.len() && is_space(src[pos]) {
        skip_spaces(src, pos + 1)
    } else {
        pos
    }
}

/// The end of the run that starts at `pos` of digits (`digits`) or of unknown bytes.
pub open spec fn run_end(src: Seq<u8>, pos: int, digits: bool) -> int
    decreases src.len() - pos,
{
    if 0 <= pos < src.len() && (if digits { is_digit(src[pos]) } else { is_unknown(src[pos]) }) {
        run_end(src, pos + 1, digits)
    } else {
        pos
    }
}

/// The token that follows offset `pos`: whitespace is skipped, a run of digits
/// is one number, a run of bytes that start no token is one unexpected token,
/// every other token is one byte, and the end of the input gives an empty end
/// token.
pub open spec fn next_tok(src: Seq<u8>, pos: int) -> (TokenKind, Span) {
    let s = skip_spaces(src, pos);
    if s >= src.len() {
        (TokenKind::End, Span { start: s as usize, end: s as usize })
    } else {
        let k = kind_of(src[s]);
        let e = if k == TokenKind::Number {
            run_end(src, s, true)
        } else if k == TokenKind::UnexpectedToken {
            run_end(src, s, false)
        } else {
            s + 1
        };
        (k, Span { start: s as usize, end: e as usize })
    }
}

/// A digit run holds digits only, and ends at or after its start.
pub proof fn lemma_run_end(src: Seq<u8>, pos: int)
    requires
        0 <= pos <= src.len(),
    ensures
        pos <= run_end(src, pos, true) <= src.len(),
        forall|j: int| pos <= j < run_end(src, pos, true) ==> is_digit(#[trigger] src[j]),
    decreases src.len() - pos,
{
    if pos < src.len() && is_digit(src[pos]) {
        lemma_run_end(src, pos + 1);
    }
}

proof fn lemma_skip_spaces(src: Seq<u8>, pos: int)
    requires
        0 <= pos <= src.len(),
    ensures
        pos <= skip_spaces(src, pos) <= src.len(),
        skip_spaces(src, pos) < src.len() ==> !is_space(src[skip_spaces(src, pos)]),
    decreases src.len() - pos,
{
    if pos < src.len() && is_space(src[pos]) {
        lemma_skip_spaces(src, pos + 1);
    }
}

proof fn lemma_run_end_bounds(src: Seq<u8>, pos: int, digits: bool)
    requires
        0 <= pos <= src.len(),
    ensures
        pos <= run_end(src, pos, digits) <= src.len(),
    decreases src.len() - pos,
{
    if pos < src.len() && (if digits { is_digit(src[pos]) } else { is_unknown(src[pos]) }) {
        lemma_run_end_bounds(src, pos + 1, digits);
    }
}

/// The token after `pos` lies within the text at or after `pos`, starts with
/// the byte that gives its kind, and only the end token is empty.
pub proof fn lemma_next_tok(src: Seq<u8>, pos: int)
    requires
        0 <= pos <= src.len(),
        src.len() <= usize::MAX,
    ensures
        pos <= next_tok(src, pos).1.start <= next_tok(src, pos).1.end <= src.len(),
        next_tok(src, pos).0 != TokenKind::End ==> {
            &&& next_tok(src, pos).1.start < next_tok(src, pos).1.end
            &&& kind_of(src[next_tok(src, pos).1.start as int]) == next_tok(src, pos).0
        },
        next_tok(src, pos).0 != TokenKind::End && next_tok(src, pos).0 != TokenKind::Number
            && next_tok(src, pos).0 != TokenKind::UnexpectedToken
            ==> next_tok(src, pos).1.end == next_tok(src, pos).1.start + 1,
        next_tok(src, pos).0 == TokenKind::Number ==> forall|j: int|
            next_tok(src, pos).1.start <= j < next_tok(src, pos).1.end ==> is_digit(#[trigger] src[j]),
{
    lemma_skip_spaces(src, pos);
    let s = skip_spaces(src, pos);
    if s < src.len() {
        lemma_run_end_bounds(src, s + 1, true);
        lemma_run_end_bounds(src, s + 1, false);
        lemma_run_end(src, s);
    }
}

fn is_unknown_byte(b: u8) -> (r: bool)
    ensures
        r == is_unknown(b),
{
    !(b == 32 || (9 <= b && b <= 13)) && token_kind(b) == TokenKind::UnexpectedToken
}

fn in_run(b: u8, digits: bool) -> (r: bool)
    ensures
        r == if digits { is_digit(b) } else { is_unknown(b) },
{
    if digits {
        48 <= b && b <= 57
    } else {
        is_unknown_byte(b)
    }
}

/// Reads the token that follows offset `pos`.
pub fn next_token(src: &[u8], pos: usize) -> (r: (TokenKind, Span))
    requires
        pos <= src@.len(),
    ensures
        r == next_tok(src@, pos as int),
        pos <= r.1.start <= r.1.end <= src@.len(),
        r.0 != TokenKind::End ==> r.1.start < r.1.end,
        r.0 == TokenKind::End ==> r.1.end == src@.len(),
        r.0 == TokenKind::Number ==> r.1.end as int == run_end(src@, r.1.start as int, true),
{
    let mut start = pos;
    while start < src.len() && (src[start] == 32 || (9 <= src[start] && src[start] <= 13))
        invariant
            pos <= start <= src@.len(),
            skip_spaces(src@, pos as int) == skip_spaces(src@, start as int),
        decreases src@.len() - start,
    {
        start = start + 1;
    }
    if start == src.len() {
        return (TokenKind::End, Span::new(start, start));
    }
    let kind = token_kind(src[start]);
    if kind == TokenKind::Number || kind == TokenKind::UnexpectedToken {
        let digits = kind == TokenKind::Number;
        let mut end = start + 1;
        assert(run_end(src@, start as int, digits) == run_end(src@, end as int, digits));
        while end < src.len() && in_run(src[end], digits)
            invariant
                start < end <= src@.len(),
                run_end(src@, start as int, digits) == run_end(src@, end as int, digits),
            decreases src@.len() - end,
        {
            end = end + 1;
        }
        (kind, Span::new(start, end))
    } else {
        (kind, Span::new(start, start + 1))
    }
}

} // verus!
