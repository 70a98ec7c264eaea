use hslex::dfa::DFALexemeErr;
use hslex::lexeme::Error;
use hslex::lexeme::Lexeme;
use hslex::mlcomment::MLComment;
use hslex::token::{Token, TokenType};

#[test]
fn mlcomment_lexeme() {
    assert_eq!(
        MLComment::recognize("{--}"),
        Ok(Token {
            token_type: TokenType::MLComment,
            span: vec![4],
        })
    );

    assert_eq!(
        MLComment::recognize("{-dfasdfasdf-}"),
        Ok(Token {
            token_type: TokenType::MLComment,
            span: vec![14],
        })
    );

    assert_eq!(
        MLComment::recognize("{-{--}-}"),
        Ok(Token {
            token_type: TokenType::MLComment,
            span: vec![8],
        })
    );

    assert_eq!(
        MLComment::recognize("{-\n{--}-}"),
        Ok(Token {
            token_type: TokenType::MLComment,
            span: vec![2, 6],
        })
    );
}

#[test]
fn mlcomment_deeply_nested() {
    assert_eq!(
        MLComment::recognize("{-{-{--}-}-}"),
        Ok(Token {
            token_type: TokenType::MLComment,
            span: vec![12],
        })
    );
}

#[test]
fn mlcomment_stops_at_outer_close() {
    assert_eq!(
        MLComment::recognize("{--}rest"),
        Ok(Token {
            token_type: TokenType::MLComment,
            span: vec![4],
        })
    );
}

#[test]
fn mlcomment_unterminated_is_no_match() {
    assert_eq!(
        MLComment::recognize("{-never closed"),
        Err(Error::Automata(DFALexemeErr::NoMatch))
    );
    assert_eq!(
        MLComment::recognize("{-}"),
        Err(Error::Automata(DFALexemeErr::NoMatch))
    );
    assert_eq!(
        MLComment::recognize("{-{--}"),
        Err(Error::Automata(DFALexemeErr::NoMatch))
    );
}

#[test]
fn mlcomment_rejects_other_text() {
    assert_eq!(
        MLComment::recognize("x{--}"),
        Err(Error::Automata(DFALexemeErr::NoMatch))
    );
    assert_eq!(
        MLComment::recognize("(-)"),
        Err(Error::Automata(DFALexemeErr::NoMatch))
    );
}

#[test]
fn mlcomment_trailing_dash_runs() {
    // an even run of dashes before the closer still closes; an odd run
    // pairs the closer's dash away and leaves the comment open
    assert_eq!(
        MLComment::recognize("{----}"),
        Ok(Token {
            token_type: TokenType::MLComment,
            span: vec![6],
        })
    );
    assert_eq!(
        MLComment::recognize("{---}"),
        Err(Error::Automata(DFALexemeErr::NoMatch))
    );
}

#[test]
fn mlcomment_non_ascii_is_fatal() {
    assert_eq!(
        MLComment::recognize("{-\u{e9}-}"),
        Err(Error::NonAsciiFound)
    );
}

#[test]
fn mlcomment_two_line_span_counts_columns() {
    assert_eq!(
        MLComment::recognize("{-ab\ncd-}"),
        Ok(Token {
            token_type: TokenType::MLComment,
            span: vec![4, 4],
        })
    );
}
