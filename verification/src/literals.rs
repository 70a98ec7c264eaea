//! Literal lexemes: decimal/octal/hexadecimal integers, floats, and the
//! character-literal placeholder.
//!
//! The integer pattern tries its radix-prefixed branches first, so a
//! complete `0o`/`0O` octal or `0x`/`0X` hexadecimal form wins over the
//! bare decimal run that its leading zero would also start; an incomplete
//! prefix (no digit of the radix after it) falls back to decimal.  The
//! float pattern takes its optional exponent only when the exponent is
//! complete.

use vstd::prelude::*;
use crate::lexeme;
use crate::regex;
use crate::reused;
use crate::token::{Token, TokenType};

verus! {

/// Integer literals: decimal, octal, and hexadecimal.
pub struct IntegerLiteral {}

/// Float literals: decimal point form with an optional signed exponent.
pub struct FloatLiteral {}

/// Character literals.  The recognition pattern is empty — value syntax is
/// outside this engine's scope — and an empty pattern matches the empty
/// prefix everywhere.
pub struct CharLiteral {}

/// A complete octal form stands at `i`: a zero, an `o` or `O`, and at
/// least one octal digit.
pub open spec fn octal_form_at(s: Seq<char>, i: int) -> bool {
    &&& 0 <= i
    &&& i + 2 < s.len()
    &&& s[i] == '0'
    &&& (s[i + 1] == 'o' || s[i + 1] == 'O')
    &&& reused::is_octit(s[i + 2])
}

/// A complete hexadecimal form stands at `i`: a zero, an `x` or `X`, and
/// at least one hexadecimal digit.
pub open spec fn hex_form_at(s: Seq<char>, i: int) -> bool {
    &&& 0 <= i
    &&& i + 2 < s.len()
    &&& s[i] == '0'
    &&& (s[i + 1] == 'x' || s[i + 1] == 'X')
    &&& reused::is_hexit(s[i + 2])
}

impl regex::RegexLexeme for IntegerLiteral {
    open spec fn spec_match_at(s: Seq<char>, i: int) -> Option<int> {
        if octal_form_at(s, i) {
            Some(reused::octitrun_end(s, i + 2) - i)
        } else if hex_form_at(s, i) {
            Some(reused::hexitrun_end(s, i + 2) - i)
        } else if 0 <= i < s.len() && reused::is_digit(s[i]) {
            Some(reused::digitrun_end(s, i) - i)
        } else {
            None
        }
    }

    open spec fn spec_needs_filtering() -> bool {
        false
    }

    open spec fn spec_excluded_words() -> Seq<Seq<char>> {
        Seq::empty()
    }

    open spec fn spec_token_type() -> TokenType {
        TokenType::IntegerLiteral
    }

    open spec fn spec_expression() -> Seq<char> {
        r"(0o[0-7]+|0O[0-7]+|0x[0-9A-Fa-f]+|0X[0-9A-Fa-f]+|[0-9]+)"@
    }

    proof fn lemma_match_within_line(s: Seq<char>, i: int) {
        if octal_form_at(s, i) {
            reused::lemma_octitrun_end(s, i + 2);
            let e = reused::octitrun_end(s, i + 2);
            assert forall|k: int| i <= k < e implies s[k] != '\n' by {
                if k >= i + 2 {
                    assert(reused::is_octit(s[k]));
                }
            }
        } else if hex_form_at(s, i) {
            reused::lemma_hexitrun_end(s, i + 2);
            let e = reused::hexitrun_end(s, i + 2);
            assert forall|k: int| i <= k < e implies s[k] != '\n' by {
                if k >= i + 2 {
                    assert(reused::is_hexit(s[k]));
                }
            }
        } else {
            reused::lemma_digitrun_end(s, i);
        }
    }

    fn expression() -> &'static str {
        r"(0o[0-7]+|0O[0-7]+|0x[0-9A-Fa-f]+|0X[0-9A-Fa-f]+|[0-9]+)"
    }

    fn token_type() -> (t: TokenType) {
        TokenType::IntegerLiteral
    }

    fn needs_filtering() -> (b: bool) {
        false
    }

    fn except_for() -> (ws: Vec<&'static str>) {
        Vec::new()
    }

    fn match_at(input: &str, i: usize) -> (r: Option<usize>) {
        let n = input.unicode_len();
        if !(i < n && reused::digit(input.get_char(i))) {
            return None;
        }
        if input.get_char(i) == '0' && n - i > 2 {
            let radix = input.get_char(i + 1);
            if (radix == 'o' || radix == 'O') && reused::octit(input.get_char(i + 2)) {
                let e = reused::scan_octitrun(input, i + 2);
                return Some(e - i);
            }
            if (radix == 'x' || radix == 'X') && reused::hexit(input.get_char(i + 2)) {
                let e = reused::scan_hexitrun(input, i + 2);
                return Some(e - i);
            }
        }
        let e = reused::scan_digitrun(input, i);
        Some(e - i)
    }
}

/// Where the float pattern's optional exponent ends: past a complete
/// exponent (`e` or `E`, an optional sign, then digits), or at `e2` itself
/// when no complete exponent follows.
pub open spec fn float_exp_end(s: Seq<char>, e2: int) -> int {
    if e2 < s.len() && (s[e2] == 'e' || s[e2] == 'E') {
        let j = if e2 + 1 < s.len() && (s[e2 + 1] == '+' || s[e2 + 1] == '-') {
            e2 + 2
        } else {
            e2 + 1
        };
        if j < s.len() && reused::is_digit(s[j]) {
            reused::digitrun_end(s, j)
        } else {
            e2
        }
    } else {
        e2
    }
}

/// Where the float match starting at `i` ends: digits, a point, digits,
/// then the optional exponent; `None` when that shape is not there.
pub open spec fn float_end(s: Seq<char>, i: int) -> Option<int> {
    if 0 <= i < s.len() && reused::is_digit(s[i]) {
        let e1 = reused::digitrun_end(s, i);
        if e1 < s.len() && s[e1] == '.' && e1 + 1 < s.len() && reused::is_digit(s[e1 + 1]) {
            Some(float_exp_end(s, reused::digitrun_end(s, e1 + 1)))
        } else {
            None
        }
    } else {
        None
    }
}

impl regex::RegexLexeme for FloatLiteral {
    open spec fn spec_match_at(s: Seq<char>, i: int) -> Option<int> {
        match float_end(s, i) {
            Some(e) => Some(e - i),
            None => None,
        }
    }

    open spec fn spec_needs_filtering() -> bool {
        false
    }

    open spec fn spec_excluded_words() -> Seq<Seq<char>> {
        Seq::empty()
    }

    open spec fn spec_token_type() -> TokenType {
        TokenType::FloatLiteral
    }

    open spec fn spec_expression() -> Seq<char> {
        r"[0-9]+\.[0-9]+((e|E)(\+|-)?[0-9]+)?"@
    }

    proof fn lemma_match_within_line(s: Seq<char>, i: int) {
        let e1 = reused::digitrun_end(s, i);
        reused::lemma_digitrun_end(s, i);
        if e1 < s.len() && s[e1] == '.' && e1 + 1 < s.len() && reused::is_digit(s[e1 + 1]) {
            let e2 = reused::digitrun_end(s, e1 + 1);
            reused::lemma_digitrun_end(s, e1 + 1);
            let e = float_exp_end(s, e2);
            if e2 < s.len() && (s[e2] == 'e' || s[e2] == 'E') {
                let j = if e2 + 1 < s.len() && (s[e2 + 1] == '+' || s[e2 + 1] == '-') {
                    e2 + 2
                } else {
                    e2 + 1
                };
                if j < s.len() && reused::is_digit(s[j]) {
                    reused::lemma_digitrun_end(s, j);
                }
            }
            assert forall|k: int| i <= k < e implies s[k] != '\n' by {
                if k < e1 {
                    assert(reused::is_digit(s[k]));
                } else if k == e1 {
                    assert(s[k] == '.');
                } else if k < e2 {
                    assert(reused::is_digit(s[k]));
                } else if k == e2 {
                    assert(s[k] == 'e' || s[k] == 'E');
                } else if k == e2 + 1 && (s[e2 + 1] == '+' || s[e2 + 1] == '-') {
                    assert(s[k] == '+' || s[k] == '-');
                } else {
                    assert(reused::is_digit(s[k]));
                }
            }
        }
    }

    fn expression() -> &'static str {
        r"[0-9]+\.[0-9]+((e|E)(\+|-)?[0-9]+)?"
    }

    fn token_type() -> (t: TokenType) {
        TokenType::FloatLiteral
    }

    fn needs_filtering() -> (b: bool) {
        false
    }

    fn except_for() -> (ws: Vec<&'static str>) {
        Vec::new()
    }

    fn match_at(input: &str, i: usize) -> (r: Option<usize>) {
        let n = input.unicode_len();
        if !(i < n && reused::digit(input.get_char(i))) {
            return None;
        }
        let e1 = reused::scan_digitrun(input, i);
        if !(e1 < n && input.get_char(e1) == '.' && e1 + 1 < n && reused::digit(
            input.get_char(e1 + 1),
        )) {
            return None;
        }
        let e2 = reused::scan_digitrun(input, e1 + 1);
        if e2 < n && (input.get_char(e2) == 'e' || input.get_char(e2) == 'E') {
            let j = if e2 + 1 < n && (input.get_char(e2 + 1) == '+' || input.get_char(e2 + 1)
                == '-') {
                e2 + 2
            } else {
                e2 + 1
            };
            if j < n && reused::digit(input.get_char(j)) {
                let e = reused::scan_digitrun(input, j);
                return Some(e - i);
            }
        }
        Some(e2 - i)
    }
}

impl regex::RegexLexeme for CharLiteral {
    open spec fn spec_match_at(s: Seq<char>, i: int) -> Option<int> {
        if 0 <= i <= s.len() {
            Some(0)
        } else {
            None
        }
    }

    open spec fn spec_needs_filtering() -> bool {
        false
    }

    open spec fn spec_excluded_words() -> Seq<Seq<char>> {
        Seq::empty()
    }

    open spec fn spec_token_type() -> TokenType {
        TokenType::CharLiteral
    }

    open spec fn spec_expression() -> Seq<char> {
        r""@
    }

    proof fn lemma_match_within_line(s: Seq<char>, i: int) {
    }

    fn expression() -> &'static str {
        r""
    }

    fn token_type() -> (t: TokenType) {
        TokenType::CharLiteral
    }

    fn needs_filtering() -> (b: bool) {
        false
    }

    fn except_for() -> (ws: Vec<&'static str>) {
        Vec::new()
    }

    fn match_at(input: &str, i: usize) -> (r: Option<usize>) {
        Some(0)
    }
}

impl lexeme::Lexeme for IntegerLiteral {
    open spec fn spec_recognize(s: Seq<char>) -> lexeme::SpecOutcome {
        regex::spec_outcome_from::<IntegerLiteral>(s, 0)
    }

    fn recognize(input: &str) -> (r: Result<Token, lexeme::Error>) {
        match regex::recognize_from::<IntegerLiteral>(input, 0) {
            Ok((t, _)) => Ok(t),
            Err(e) => Err(e),
        }
    }
}

impl lexeme::Lexeme for FloatLiteral {
    open spec fn spec_recognize(s: Seq<char>) -> lexeme::SpecOutcome {
        regex::spec_outcome_from::<FloatLiteral>(s, 0)
    }

    fn recognize(input: &str) -> (r: Result<Token, lexeme::Error>) {
        match regex::recognize_from::<FloatLiteral>(input, 0) {
            Ok((t, _)) => Ok(t),
            Err(e) => Err(e),
        }
    }
}

impl lexeme::Lexeme for CharLiteral {
    open spec fn spec_recognize(s: Seq<char>) -> lexeme::SpecOutcome {
        regex::spec_outcome_from::<CharLiteral>(s, 0)
    }

    fn recognize(input: &str) -> (r: Result<Token, lexeme::Error>) {
        match regex::recognize_from::<CharLiteral>(input, 0) {
            Ok((t, _)) => Ok(t),
            Err(e) => Err(e),
        }
    }
}

} // verus!
