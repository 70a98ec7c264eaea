//! Reserved words and reserved operators: fixed alternations of literal
//! tokens.
//!
//! Alternation is first-match in declaration order, not longest-match: the
//! first listed word that occurs at the probe position wins, so a word that
//! is a prefix of a later one shadows it there.

use vstd::prelude::*;
use crate::lexeme;
use crate::regex;
use crate::reused;
use crate::token::{Token, TokenType};

verus! {

/// The first word of `words`, from index `k` on, that occurs at position
/// `i` of `s`; the result is that word's length.
pub open spec fn first_word_from(s: Seq<char>, i: int, words: Seq<Seq<char>>, k: int) -> Option<
    int,
>
    decreases words.len() - k,
{
    if k < 0 || k >= words.len() {
        None
    } else if reused::is_lit_prefix(s, i, words[k]) {
        Some(words[k].len() as int)
    } else {
        first_word_from(s, i, words, k + 1)
    }
}

/// A word list fit for matching: every word is non-empty, fits a span
/// entry, and contains no line break.
pub open spec fn word_ok(w: Seq<char>) -> bool {
    0 < w.len() <= 0xFFFF && forall|j: int| 0 <= j < w.len() ==> w[j] != '\n'
}

/// A first-word match over a fit word list stays in range, within one
/// line, and is never empty.
pub proof fn lemma_first_word_within(s: Seq<char>, i: int, words: Seq<Seq<char>>, k: int)
    requires
        0 <= i <= s.len(),
        0 <= k,
        forall|m: int| 0 <= m < words.len() ==> word_ok(#[trigger] words[m]),
    ensures
        first_word_from(s, i, words, k) matches Some(l) ==> 0 < l && i + l <= s.len()
            && reused::no_newlines(s, i, i + l),
    decreases words.len() - k,
{
    if 0 <= k < words.len() {
        if reused::is_lit_prefix(s, i, words[k]) {
            let w = words[k];
            assert forall|p: int| i <= p < i + w.len() implies s[p] != '\n' by {
                assert(s.subrange(i, i + w.len())[p - i] == w[p - i]);
            }
        } else {
            lemma_first_word_within(s, i, words, k + 1);
        }
    }
}

/// The views of a list of words.
pub open spec fn views_of(ws: Seq<&str>) -> Seq<Seq<char>> {
    ws.map_values(|w: &str| w@)
}

/// Finds the first word of `ws`, in order, that occurs at position `i` of
/// `input`, and returns its length.
pub fn match_first_word(input: &str, i: usize, ws: &Vec<&'static str>) -> (r: Option<usize>)
    requires
        i <= input@.len(),
    ensures
        regex::len_matches(r, first_word_from(input@, i as int, views_of(ws@), 0)),
{
    let m = ws.len();
    let mut k: usize = 0;
    while k < m
        invariant
            0 <= k <= m,
            m == ws@.len(),
            i <= input@.len(),
            first_word_from(input@, i as int, views_of(ws@), 0) == first_word_from(
                input@,
                i as int,
                views_of(ws@),
                k as int,
            ),
        decreases m - k,
    {
        let w = ws[k];
        if reused::lit_prefix(input, i, w) {
            return Some(w.unicode_len());
        }
        k += 1;
    }
    None
}

/// The reserved words, in the order they are tried.
pub open spec fn reserved_id_words() -> Seq<Seq<char>> {
    seq![
        "case"@,
        "class"@,
        "data"@,
        "default"@,
        "deriving"@,
        "do"@,
        "else"@,
        "foreign"@,
        "if"@,
        "import"@,
        "in"@,
        "infix"@,
        "infixl"@,
        "infixr"@,
        "instance"@,
        "let"@,
        "module"@,
        "newtype"@,
        "of"@,
        "then"@,
        "type"@,
        "where"@,
        "_"@,
    ]
}

/// Every reserved word is fit for matching.
pub proof fn lemma_reserved_id_words_ok()
    ensures
        forall|m: int|
            0 <= m < reserved_id_words().len() ==> word_ok(#[trigger] reserved_id_words()[m]),
{
    reveal_strlit("case");
    reveal_strlit("class");
    reveal_strlit("data");
    reveal_strlit("default");
    reveal_strlit("deriving");
    reveal_strlit("do");
    reveal_strlit("else");
    reveal_strlit("foreign");
    reveal_strlit("if");
    reveal_strlit("import");
    reveal_strlit("in");
    reveal_strlit("infix");
    reveal_strlit("infixl");
    reveal_strlit("infixr");
    reveal_strlit("instance");
    reveal_strlit("let");
    reveal_strlit("module");
    reveal_strlit("newtype");
    reveal_strlit("of");
    reveal_strlit("then");
    reveal_strlit("type");
    reveal_strlit("where");
    reveal_strlit("_");
}

/// The reserved operators, in the order they are tried.
pub open spec fn reserved_op_words() -> Seq<Seq<char>> {
    seq![".."@, ":"@, "::"@, "="@, "<-"@, "->"@, "@"@, "~"@, "=>"@, "\\"@, "|"@]
}

/// Every reserved operator is fit for matching.
pub proof fn lemma_reserved_op_words_ok()
    ensures
        forall|m: int|
            0 <= m < reserved_op_words().len() ==> word_ok(#[trigger] reserved_op_words()[m]),
{
    reveal_strlit("..");
    reveal_strlit(":");
    reveal_strlit("::");
    reveal_strlit("=");
    reveal_strlit("<-");
    reveal_strlit("->");
    reveal_strlit("@");
    reveal_strlit("~");
    reveal_strlit("=>");
    reveal_strlit("\\");
    reveal_strlit("|");
}

/// Reserved word lexeme.
pub struct ReservedId {}

/// Reserved operator lexeme.
pub struct ReservedOp {}

impl regex::RegexLexeme for ReservedId {
    open spec fn spec_match_at(s: Seq<char>, i: int) -> Option<int> {
        first_word_from(s, i, reserved_id_words(), 0)
    }

    open spec fn spec_needs_filtering() -> bool {
        false
    }

    open spec fn spec_excluded_words() -> Seq<Seq<char>> {
        Seq::empty()
    }

    open spec fn spec_token_type() -> TokenType {
        TokenType::ReservedId
    }

    open spec fn spec_expression() -> Seq<char> {
        r"(case|class|data|default|deriving|do|else|foreign|if|import|in|infix|infixl|infixr|instance|let|module|newtype|of|then|type|where|_)"@
    }

    proof fn lemma_match_within_line(s: Seq<char>, i: int) {
        lemma_reserved_id_words_ok();
        lemma_first_word_within(s, i, reserved_id_words(), 0);
    }

    fn expression() -> &'static str {
        r"(case|class|data|default|deriving|do|else|foreign|if|import|in|infix|infixl|infixr|instance|let|module|newtype|of|then|type|where|_)"
    }

    fn token_type() -> (t: TokenType) {
        TokenType::ReservedId
    }

    fn needs_filtering() -> (b: bool) {
        false
    }

    fn except_for() -> (ws: Vec<&'static str>) {
        Vec::new()
    }

    fn match_at(input: &str, i: usize) -> (r: Option<usize>) {
        let ws: Vec<&'static str> = vec![
            "case",
            "class",
            "data",
            "default",
            "deriving",
            "do",
            "else",
            "foreign",
            "if",
            "import",
            "in",
            "infix",
            "infixl",
            "infixr",
            "instance",
            "let",
            "module",
            "newtype",
            "of",
            "then",
            "type",
            "where",
            "_",
        ];
        proof {
            assert(views_of(ws@) =~= reserved_id_words());
        }
        match_first_word(input, i, &ws)
    }
}

impl regex::RegexLexeme for ReservedOp {
    open spec fn spec_match_at(s: Seq<char>, i: int) -> Option<int> {
        first_word_from(s, i, reserved_op_words(), 0)
    }

    open spec fn spec_needs_filtering() -> bool {
        false
    }

    open spec fn spec_excluded_words() -> Seq<Seq<char>> {
        Seq::empty()
    }

    open spec fn spec_token_type() -> TokenType {
        TokenType::ReservedOp
    }

    open spec fn spec_expression() -> Seq<char> {
        r"\.\.|:|::|=|<-|->|@|~|=>|\\|\|"@
    }

    proof fn lemma_match_within_line(s: Seq<char>, i: int) {
        lemma_reserved_op_words_ok();
        lemma_first_word_within(s, i, reserved_op_words(), 0);
    }

    fn expression() -> &'static str {
        r"\.\.|:|::|=|<-|->|@|~|=>|\\|\|"
    }

    fn token_type() -> (t: TokenType) {
        TokenType::ReservedOp
    }

    fn needs_filtering() -> (b: bool) {
        false
    }

    fn except_for() -> (ws: Vec<&'static str>) {
        Vec::new()
    }

    fn match_at(input: &str, i: usize) -> (r: Option<usize>) {
        let ws: Vec<&'static str> = vec![
            "..",
            ":",
            "::",
            "=",
            "<-",
            "->",
            "@",
            "~",
            "=>",
            "\\",
            "|",
        ];
        proof {
            assert(views_of(ws@) =~= reserved_op_words());
        }
        match_first_word(input, i, &ws)
    }
}

impl lexeme::Lexeme for ReservedId {
    open spec fn spec_recognize(s: Seq<char>) -> lexeme::SpecOutcome {
        regex::spec_outcome_from::<ReservedId>(s, 0)
    }

    fn recognize(input: &str) -> (r: Result<Token, lexeme::Error>) {
        match regex::recognize_from::<ReservedId>(input, 0) {
            Ok((t, _)) => Ok(t),
            Err(e) => Err(e),
        }
    }
}

impl lexeme::Lexeme for ReservedOp {
    open spec fn spec_recognize(s: Seq<char>) -> lexeme::SpecOutcome {
        regex::spec_outcome_from::<ReservedOp>(s, 0)
    }

    fn recognize(input: &str) -> (r: Result<Token, lexeme::Error>) {
        match regex::recognize_from::<ReservedOp>(input, 0) {
            Ok((t, _)) => Ok(t),
            Err(e) => Err(e),
        }
    }
}

} // verus!
