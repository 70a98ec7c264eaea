use hslex::lexeme::Error;
use hslex::lexeme::Lexeme;
use hslex::literals::{CharLiteral, FloatLiteral, IntegerLiteral};
use hslex::regex;
use hslex::token::TokenType;

#[test]
fn integer_decimal_run() {
    let res = IntegerLiteral::recognize("12345 x").unwrap();
    assert_eq!(res.span, vec![5]);
    assert_eq!(res.token_type, TokenType::IntegerLiteral);
}

#[test]
fn integer_radix_prefixed_forms() {
    let res = IntegerLiteral::recognize("0o17").unwrap();
    assert_eq!(res.span, vec![4]);
    let res = IntegerLiteral::recognize("0O7").unwrap();
    assert_eq!(res.span, vec![3]);
    let res = IntegerLiteral::recognize("0xFF").unwrap();
    assert_eq!(res.span, vec![4]);
    let res = IntegerLiteral::recognize("0Xa9z").unwrap();
    assert_eq!(res.span, vec![4]);
    // the octal run stops at the first non-octal digit
    let res = IntegerLiteral::recognize("0o18").unwrap();
    assert_eq!(res.span, vec![3]);
}

#[test]
fn integer_incomplete_radix_prefix_falls_back_to_decimal() {
    let res = IntegerLiteral::recognize("0oz").unwrap();
    assert_eq!(res.span, vec![1]);
    let res = IntegerLiteral::recognize("0x").unwrap();
    assert_eq!(res.span, vec![1]);
    let res = IntegerLiteral::recognize("007").unwrap();
    assert_eq!(res.span, vec![3]);
}

#[test]
fn integer_distant_and_missing() {
    assert_eq!(
        IntegerLiteral::recognize("x1"),
        Err(Error::Regex(regex::Error::DistantMatch))
    );
    assert_eq!(
        IntegerLiteral::recognize("xyz"),
        Err(Error::Regex(regex::Error::NoMatch))
    );
}

#[test]
fn float_with_exponent() {
    let res = FloatLiteral::recognize("1.5e+3").unwrap();
    assert_eq!(res.span, vec![6]);
    assert_eq!(res.token_type, TokenType::FloatLiteral);
    let res = FloatLiteral::recognize("12.25E9z").unwrap();
    assert_eq!(res.span, vec![7]);
}

#[test]
fn float_incomplete_exponent_is_left_out() {
    let res = FloatLiteral::recognize("1.5e").unwrap();
    assert_eq!(res.span, vec![3]);
    let res = FloatLiteral::recognize("1.5e+").unwrap();
    assert_eq!(res.span, vec![3]);
}

#[test]
fn float_needs_digits_on_both_sides() {
    assert_eq!(
        FloatLiteral::recognize("1."),
        Err(Error::Regex(regex::Error::NoMatch))
    );
    assert_eq!(
        FloatLiteral::recognize(".5"),
        Err(Error::Regex(regex::Error::NoMatch))
    );
}

#[test]
fn char_literal_placeholder_matches_empty() {
    let res = CharLiteral::recognize("x").unwrap();
    assert_eq!(res.span, vec![0]);
    assert_eq!(res.token_type, TokenType::CharLiteral);
}
