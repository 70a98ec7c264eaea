use hslex::driver::{gen_hs_token_stream, LexErrorKind, LexicalError};
use hslex::token::{Token, TokenType};

#[test]
fn run() {
    let raw = format!(r"{modid}", modid = "value");
    assert_eq!(raw, "value");
}

#[test]
fn stream_of_one_comment() {
    assert_eq!(
        gen_hs_token_stream("{--}"),
        Ok(vec![Token {
            token_type: TokenType::MLComment,
            span: vec![4],
        }])
    );
}

#[test]
fn stream_of_one_conid() {
    assert_eq!(
        gen_hs_token_stream("F.G"),
        Ok(vec![Token {
            token_type: TokenType::QConId,
            span: vec![3],
        }])
    );
}

#[test]
fn stream_where_conid_stops_early() {
    // F.g is no constructor identifier: F is claimed first, then the
    // symbolic dot, then the variable g.
    assert_eq!(
        gen_hs_token_stream("F.g"),
        Ok(vec![
            Token {
                token_type: TokenType::QConId,
                span: vec![1],
            },
            Token {
                token_type: TokenType::QVarSym,
                span: vec![1],
            },
            Token {
                token_type: TokenType::QVarId,
                span: vec![1],
            },
        ])
    );
}

#[test]
fn stream_with_whitespace_and_keyword() {
    assert_eq!(
        gen_hs_token_stream("  if x"),
        Ok(vec![
            Token {
                token_type: TokenType::ReservedId,
                span: vec![2],
            },
            Token {
                token_type: TokenType::QVarId,
                span: vec![1],
            },
        ])
    );
}

#[test]
fn stream_with_specials() {
    assert_eq!(
        gen_hs_token_stream("[x]"),
        Ok(vec![
            Token {
                token_type: TokenType::Special,
                span: vec![1],
            },
            Token {
                token_type: TokenType::QVarId,
                span: vec![1],
            },
            Token {
                token_type: TokenType::Special,
                span: vec![1],
            },
        ])
    );
}

#[test]
fn open_brace_before_dash_is_a_comment() {
    // the special fast path must not claim the { of {-
    assert_eq!(
        gen_hs_token_stream("{--} {"),
        Ok(vec![
            Token {
                token_type: TokenType::MLComment,
                span: vec![4],
            },
            Token {
                token_type: TokenType::Special,
                span: vec![1],
            },
        ])
    );
}

#[test]
fn multi_line_comment_in_stream() {
    assert_eq!(
        gen_hs_token_stream("{-\n-} x"),
        Ok(vec![
            Token {
                token_type: TokenType::MLComment,
                span: vec![2, 2],
            },
            Token {
                token_type: TokenType::QVarId,
                span: vec![1],
            },
        ])
    );
}

#[test]
fn reserved_operator_is_first_match_not_longest() {
    assert_eq!(
        gen_hs_token_stream("::"),
        Ok(vec![
            Token {
                token_type: TokenType::ReservedOp,
                span: vec![1],
            },
            Token {
                token_type: TokenType::ReservedOp,
                span: vec![1],
            },
        ])
    );
}

#[test]
fn lexical_error_is_located() {
    assert_eq!(
        gen_hs_token_stream("ab\n '"),
        Err(LexicalError {
            kind: LexErrorKind::NoRecognizerMatched,
            offset: 4,
            row: 1,
            col: 1,
        })
    );
}

#[test]
fn lone_unmatched_character_aborts() {
    assert_eq!(
        gen_hs_token_stream("'"),
        Err(LexicalError {
            kind: LexErrorKind::NoRecognizerMatched,
            offset: 0,
            row: 0,
            col: 0,
        })
    );
}

#[test]
fn non_ascii_input_aborts() {
    assert_eq!(
        gen_hs_token_stream("a\u{e9}"),
        Err(LexicalError {
            kind: LexErrorKind::NonAsciiInput,
            offset: 1,
            row: 0,
            col: 1,
        })
    );
}

#[test]
fn empty_buffer_yields_empty_stream() {
    assert_eq!(gen_hs_token_stream(""), Ok(vec![]));
}

#[test]
fn round_trip_reconstruction() {
    // concatenating the covered substrings and the skipped whitespace, in
    // order, reconstructs the buffer
    let input = "{-c-} if [x]\ny";
    let tokens = gen_hs_token_stream(input).unwrap();
    let mut widths: Vec<usize> = Vec::new();
    for t in &tokens {
        let mut w: usize = t.span.len() - 1;
        for entry in &t.span {
            w += *entry as usize;
        }
        widths.push(w);
    }
    assert_eq!(widths, vec![5, 2, 1, 1, 1, 1]);
    let bytes = input.as_bytes();
    let mut rebuilt = String::new();
    let mut cursor: usize = 0;
    for w in &widths {
        while cursor < bytes.len() && matches!(bytes[cursor], b' ' | b'\t' | b'\r' | b'\n') {
            rebuilt.push_str(&input[cursor..cursor + 1]);
            cursor += 1;
        }
        rebuilt.push_str(&input[cursor..cursor + w]);
        cursor += w;
    }
    assert_eq!(rebuilt, input);
}
