use hslex::ascii::ASCIIChar;
use hslex::token::{Token, TokenType};

#[test]
fn ascii_char_accepts_the_ascii_range() {
    let a = ASCIIChar::new('a').unwrap();
    assert_eq!(a.get_char(), 'a');
    let nul = ASCIIChar::new('\u{0}').unwrap();
    assert_eq!(nul.get_char(), '\u{0}');
    let del = ASCIIChar::new('\u{7f}').unwrap();
    assert_eq!(del.get_char(), '\u{7f}');
}

#[test]
fn ascii_char_refuses_the_rest() {
    assert!(ASCIIChar::new('\u{80}').is_none());
    assert!(ASCIIChar::new('\u{e9}').is_none());
    assert!(ASCIIChar::new('\u{1f600}').is_none());
}

#[test]
fn token_equality_is_by_kind_and_span() {
    let a = Token {
        token_type: TokenType::QConId,
        span: vec![3],
    };
    let b = Token {
        token_type: TokenType::QConId,
        span: vec![3],
    };
    let c = Token {
        token_type: TokenType::QVarId,
        span: vec![3],
    };
    let d = Token {
        token_type: TokenType::QConId,
        span: vec![3, 1],
    };
    assert_eq!(a, b);
    assert_ne!(a, c);
    assert_ne!(a, d);
}
