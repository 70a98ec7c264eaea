use hslex::lexeme::Error;
use hslex::lexeme::Lexeme;
use hslex::regex;
use hslex::reserved::{ReservedId, ReservedOp};
use hslex::token::TokenType;

#[test]
fn reserved_id_matches_keyword() {
    let res = ReservedId::recognize("case").unwrap();
    assert_eq!(res.span, vec![4]);
    assert_eq!(res.token_type, TokenType::ReservedId);
    let res = ReservedId::recognize("where x").unwrap();
    assert_eq!(res.span, vec![5]);
    let res = ReservedId::recognize("_").unwrap();
    assert_eq!(res.span, vec![1]);
}

#[test]
fn reserved_id_first_alternative_wins() {
    // "in" is listed before "infix" and "infixl", so it claims the prefix
    let res = ReservedId::recognize("infixl").unwrap();
    assert_eq!(res.span, vec![2]);
}

#[test]
fn reserved_id_no_keyword_anywhere() {
    assert_eq!(
        ReservedId::recognize("zzz"),
        Err(Error::Regex(regex::Error::NoMatch))
    );
}

#[test]
fn reserved_id_distant_keyword_rejected() {
    assert_eq!(
        ReservedId::recognize("x = if"),
        Err(Error::Regex(regex::Error::DistantMatch))
    );
}

#[test]
fn reserved_op_matches() {
    let res = ReservedOp::recognize("..").unwrap();
    assert_eq!(res.span, vec![2]);
    assert_eq!(res.token_type, TokenType::ReservedOp);
    let res = ReservedOp::recognize("\\").unwrap();
    assert_eq!(res.span, vec![1]);
    let res = ReservedOp::recognize("->").unwrap();
    assert_eq!(res.span, vec![2]);
}

#[test]
fn reserved_op_first_alternative_wins() {
    // ":" is listed before "::" and "=" before "=>"
    let res = ReservedOp::recognize("::").unwrap();
    assert_eq!(res.span, vec![1]);
    let res = ReservedOp::recognize("=>").unwrap();
    assert_eq!(res.span, vec![1]);
}

#[test]
fn reserved_op_distant_rejected() {
    assert_eq!(
        ReservedOp::recognize("x="),
        Err(Error::Regex(regex::Error::DistantMatch))
    );
}
