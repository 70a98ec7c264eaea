use hslex::lexeme::Lexeme;
use hslex::regex;
use hslex::reused::{Digit, Hexit};
use hslex::token::TokenType;

#[test]
fn foo() {
    // first test the dependant type
    assert_eq!("0-9", <Digit as regex::RegexLexeme>::expression());
    assert_eq!("[0-9]", <Digit as regex::CharacterGroup>::group_expression());
    assert_eq!(<Hexit as regex::RegexLexeme>::expression(), "A-Fa-f0-9");
    assert_eq!(<Hexit as regex::CharacterGroup>::group_expression(), "[A-Fa-f0-9]");
}

#[test]
fn class_tags_match_their_literal_text() {
    let res = Digit::recognize("0-9!").unwrap();
    assert_eq!(res.span, vec![3]);
    assert_eq!(res.token_type, TokenType::Digit);
    let res = Hexit::recognize("A-Fa-f0-9").unwrap();
    assert_eq!(res.span, vec![9]);
}
