use roll::lang::Span;
use roll::lang::TokenKind;
use roll::lexer::next_token;

#[test]
fn number_run_is_one_token() {
    let src = "  123+4".as_bytes();
    assert_eq!(next_token(src, 0), (TokenKind::Number, Span::new(2, 5)));
    assert_eq!(next_token(src, 5), (TokenKind::Plus, Span::new(5, 6)));
    assert_eq!(next_token(src, 6), (TokenKind::Number, Span::new(6, 7)));
    assert_eq!(next_token(src, 7), (TokenKind::End, Span::new(7, 7)));
}

#[test]
fn dice_and_groups() {
    let src = "2d(2 * 2)".as_bytes();
    assert_eq!(next_token(src, 1), (TokenKind::Dice, Span::new(1, 2)));
    assert_eq!(next_token(src, 2), (TokenKind::LeftParenthesis, Span::new(2, 3)));
    assert_eq!(next_token(src, 4), (TokenKind::Asterisk, Span::new(5, 6)));
    assert_eq!(next_token(src, 8), (TokenKind::RightParenthesis, Span::new(8, 9)));
}

#[test]
fn unknown_byte_is_unexpected() {
    let src = "1 ? 2".as_bytes();
    assert_eq!(next_token(src, 1), (TokenKind::UnexpectedToken, Span::new(2, 3)));
    assert_eq!(next_token("   ".as_bytes(), 0), (TokenKind::End, Span::new(3, 3)));
}

#[test]
fn unknown_run_is_one_token() {
    let src = "1 ?\u{e9}& 2".as_bytes();
    assert_eq!(next_token(src, 1), (TokenKind::UnexpectedToken, Span::new(2, 6)));
    assert_eq!(next_token(src, 6), (TokenKind::Number, Span::new(7, 8)));
}
