//! Qualified identifiers and operators.
//!
//! Grammar rules covered here:
//!
//! - `qconid -> [modid .] conid`, `conid -> LARGE {SMALL | LARGE | DIGIT | '}`
//! - `qvarid -> [modid .] varid`, `varid -> (SMALL {SMALL | LARGE | DIGIT | '}) / reservedid`
//! - `qvarsym -> [modid .] varsym`, `qconsym -> [modid .] consym`
//! - `modid -> {conid .} conid`
//!
//! The dotted module qualifier is taken greedily: as many complete
//! `conid .` units as the text offers, provided what follows them can still
//! finish the lexeme; a trailing segment without its dot is never part of
//! the qualifier.

use vstd::prelude::*;
use crate::lexeme;
use crate::regex;
use crate::reused;
use crate::token::{Token, TokenType};

verus! {

/// Where the dotted chain of capitalized segments that starts at `i` ends:
/// each segment is a capital letter with its identifier-character run, and
/// the chain continues past a `.` only onto another capital letter.  This
/// is the whole match of a qualified constructor identifier.
pub open spec fn qcon_chain_end(s: Seq<char>, i: int) -> int
    decreases s.len() - i,
{
    if !(0 <= i < s.len() && reused::is_big(s[i])) {
        i
    } else {
        let e = reused::idrun_end(s, i + 1);
        if e < s.len() && s[e] == '.' && e + 1 < s.len() && reused::is_big(s[e + 1]) {
            proof {
                reused::lemma_idrun_end(s, i + 1);
            }
            qcon_chain_end(s, e + 1)
        } else {
            e
        }
    }
}

/// The constructor chain stays in range and consists of identifier
/// characters and dots only.
pub proof fn lemma_qcon_chain(s: Seq<char>, i: int)
    requires
        0 <= i < s.len(),
        reused::is_big(s[i]),
    ensures
        i < qcon_chain_end(s, i) <= s.len(),
        forall|k: int|
            i <= k < qcon_chain_end(s, i) ==> reused::is_idchar(s[k]) || s[k] == '.',
    decreases s.len() - i,
{
    let e = reused::idrun_end(s, i + 1);
    reused::lemma_idrun_end(s, i + 1);
    if e < s.len() && s[e] == '.' && e + 1 < s.len() && reused::is_big(s[e + 1]) {
        lemma_qcon_chain(s, e + 1);
    }
}

/// Where a qualified variable identifier that starts with a capital at `i`
/// ends: the qualifier chain must eventually cross a `.` onto a lower-case
/// letter, whose identifier run finishes the match; `None` when it never
/// does.
pub open spec fn qvar_scan(s: Seq<char>, i: int) -> Option<int>
    decreases s.len() - i,
{
    if !(0 <= i < s.len() && reused::is_big(s[i])) {
        None
    } else {
        let e = reused::idrun_end(s, i + 1);
        if e < s.len() && s[e] == '.' {
            if e + 1 < s.len() && reused::is_small(s[e + 1]) {
                Some(reused::idrun_end(s, e + 2))
            } else if e + 1 < s.len() && reused::is_big(s[e + 1]) {
                proof {
                    reused::lemma_idrun_end(s, i + 1);
                }
                qvar_scan(s, e + 1)
            } else {
                None
            }
        } else {
            None
        }
    }
}

/// A successful variable scan stays in range and consists of identifier
/// characters and dots only.
pub proof fn lemma_qvar_scan(s: Seq<char>, i: int)
    requires
        0 <= i,
    ensures
        qvar_scan(s, i) matches Some(e) ==> i < e <= s.len() && (forall|k: int|
            i <= k < e ==> reused::is_idchar(s[k]) || s[k] == '.'),
    decreases s.len() - i,
{
    if 0 <= i < s.len() && reused::is_big(s[i]) {
        let e = reused::idrun_end(s, i + 1);
        reused::lemma_idrun_end(s, i + 1);
        if e < s.len() && s[e] == '.' {
            if e + 1 < s.len() && reused::is_small(s[e + 1]) {
                reused::lemma_idrun_end(s, e + 2);
            } else if e + 1 < s.len() && reused::is_big(s[e + 1]) {
                lemma_qvar_scan(s, e + 1);
            }
        }
    }
}

/// Where the qualifier of a symbolic operator ends: the end of the longest
/// chain of complete `conid .` units starting at `i`, or `i` itself when
/// there is none.  Unlike the identifier chains, a unit here only counts
/// with its dot, whatever follows.
pub open spec fn qsym_qual_end(s: Seq<char>, i: int) -> int
    decreases s.len() - i,
{
    if !(0 <= i < s.len() && reused::is_big(s[i])) {
        i
    } else {
        let e = reused::idrun_end(s, i + 1);
        if e < s.len() && s[e] == '.' {
            proof {
                reused::lemma_idrun_end(s, i + 1);
            }
            qsym_qual_end(s, e + 1)
        } else {
            i
        }
    }
}

/// The symbolic-operator qualifier stays in range and consists of
/// identifier characters and dots only.
pub proof fn lemma_qsym_qual(s: Seq<char>, i: int)
    requires
        0 <= i <= s.len(),
    ensures
        i <= qsym_qual_end(s, i) <= s.len(),
        forall|k: int|
            i <= k < qsym_qual_end(s, i) ==> reused::is_idchar(s[k]) || s[k] == '.',
    decreases s.len() - i,
{
    if 0 <= i < s.len() && reused::is_big(s[i]) {
        let e = reused::idrun_end(s, i + 1);
        reused::lemma_idrun_end(s, i + 1);
        if e < s.len() && s[e] == '.' {
            lemma_qsym_qual(s, e + 1);
        }
    }
}

/// The words a qualified variable identifier may not be: the reserved
/// words of the grammar.
pub open spec fn qvar_excluded_words() -> Seq<Seq<char>> {
    seq![
        "case"@,
        "class"@,
        "data"@,
        "default"@,
        "deriving"@,
        "do"@,
        "else"@,
        "foreign"@,
        "if"@,
        "import"@,
        "in"@,
        "infix"@,
        "infixl"@,
        "infixr"@,
        "instance"@,
        "let"@,
        "module"@,
        "newtype"@,
        "of"@,
        "then"@,
        "type"@,
        "where"@,
    ]
}

/// The texts a qualified symbolic operator may not be: the reserved
/// operators and the line-comment dashes.
pub open spec fn qsym_excluded_words() -> Seq<Seq<char>> {
    seq![
        "--"@,
        ".."@,
        ":"@,
        "::"@,
        "="@,
        "\\"@,
        "|"@,
        "<-"@,
        "->"@,
        "@"@,
        "~"@,
        "=>"@,
    ]
}

/// A word shaped like an unqualified variable identifier: non-empty, a
/// lower-case letter first, identifier characters throughout.
pub open spec fn lower_word(w: Seq<char>) -> bool {
    w.len() > 0 && reused::is_small(w[0]) && forall|j: int|
        0 <= j < w.len() ==> reused::is_idchar(w[j])
}

/// Every reserved word excluded from qualified variable identifiers is
/// itself shaped like one — which is exactly why the filter is needed.
pub proof fn lemma_qvar_words_lower()
    ensures
        forall|k: int|
            0 <= k < qvar_excluded_words().len() ==> lower_word(#[trigger] qvar_excluded_words()[k]),
{
    reveal_strlit("case");
    reveal_strlit("class");
    reveal_strlit("data");
    reveal_strlit("default");
    reveal_strlit("deriving");
    reveal_strlit("do");
    reveal_strlit("else");
    reveal_strlit("foreign");
    reveal_strlit("if");
    reveal_strlit("import");
    reveal_strlit("in");
    reveal_strlit("infix");
    reveal_strlit("infixl");
    reveal_strlit("infixr");
    reveal_strlit("instance");
    reveal_strlit("let");
    reveal_strlit("module");
    reveal_strlit("newtype");
    reveal_strlit("of");
    reveal_strlit("then");
    reveal_strlit("type");
    reveal_strlit("where");
}

/// Reserved-word collision: probing a buffer that is exactly a reserved
/// word, the variable-identifier pattern itself matches the whole word,
/// yet the probe is rejected by filtering, so the reserved-word recognizer
/// can claim the text.
pub proof fn lemma_qvarid_reserved_filtered(s: Seq<char>)
    requires
        regex::spec_excluded::<QVarId>(s),
    ensures
        <QVarId as regex::RegexLexeme>::spec_match_at(s, 0) == Some(s.len() as int),
        regex::spec_outcome_from::<QVarId>(s, 0) == Err::<(TokenType, Seq<u16>), lexeme::Error>(
            lexeme::Error::FoundConflictingLexeme,
        ),
{
    lemma_qvar_words_lower();
    let k = choose|k: int|
        0 <= k < <QVarId as regex::RegexLexeme>::spec_excluded_words().len()
            && <QVarId as regex::RegexLexeme>::spec_excluded_words()[k] == s;
    assert(lower_word(s));
    reused::lemma_idrun_full(s, 1);
    assert(<QVarId as regex::RegexLexeme>::spec_match_at(s, 0) == Some(s.len() as int));
    assert(regex::spec_first_match::<QVarId>(s, 0) == Some((0int, s.len() as int)));
    assert(s.subrange(0, s.len() as int) =~= s);
}

/// Qualified constructor identifier.
pub struct QConId {}

/// Qualified variable identifier; filtered against the reserved words.
pub struct QVarId {}

/// Qualified symbolic operator; filtered against the reserved operators.
pub struct QVarSym {}

/// Qualified symbolic constructor operator (its symbol run begins with a
/// colon); filtered against the reserved operators.
pub struct QConSym {}

impl regex::RegexLexeme for QConId {
    open spec fn spec_match_at(s: Seq<char>, i: int) -> Option<int> {
        if 0 <= i < s.len() && reused::is_big(s[i]) {
            Some(qcon_chain_end(s, i) - i)
        } else {
            None
        }
    }

    open spec fn spec_needs_filtering() -> bool {
        false
    }

    open spec fn spec_excluded_words() -> Seq<Seq<char>> {
        Seq::empty()
    }

    open spec fn spec_token_type() -> TokenType {
        TokenType::QConId
    }

    open spec fn spec_expression() -> Seq<char> {
        r"(([A-Z][A-Za-z0-9']*\.)*[A-Z][A-Za-z0-9']*\.)?[A-Z][A-Za-z0-9']*"@
    }

    proof fn lemma_match_within_line(s: Seq<char>, i: int) {
        lemma_qcon_chain(s, i);
    }

    fn expression() -> &'static str {
        r"(([A-Z][A-Za-z0-9']*\.)*[A-Z][A-Za-z0-9']*\.)?[A-Z][A-Za-z0-9']*"
    }

    fn token_type() -> (t: TokenType) {
        TokenType::QConId
    }

    fn needs_filtering() -> (b: bool) {
        false
    }

    fn except_for() -> (ws: Vec<&'static str>) {
        Vec::new()
    }

    fn match_at(input: &str, i: usize) -> (r: Option<usize>) {
        let n = input.unicode_len();
        if !(i < n && reused::big(input.get_char(i))) {
            return None;
        }
        let mut seg = i;
        loop
            invariant
                i <= seg < n,
                n == input@.len(),
                reused::is_big(input@[seg as int]),
                qcon_chain_end(input@, i as int) == qcon_chain_end(input@, seg as int),
            decreases n - seg,
        {
            let e = reused::scan_idrun(input, seg + 1);
            if e < n && input.get_char(e) == '.' && e + 1 < n && reused::big(
                input.get_char(e + 1),
            ) {
                seg = e + 1;
            } else {
                return Some(e - i);
            }
        }
    }
}

impl regex::RegexLexeme for QVarId {
    open spec fn spec_match_at(s: Seq<char>, i: int) -> Option<int> {
        if 0 <= i < s.len() && reused::is_small(s[i]) {
            Some(reused::idrun_end(s, i + 1) - i)
        } else {
            match qvar_scan(s, i) {
                Some(e) => Some(e - i),
                None => None,
            }
        }
    }

    open spec fn spec_needs_filtering() -> bool {
        true
    }

    open spec fn spec_excluded_words() -> Seq<Seq<char>> {
        qvar_excluded_words()
    }

    open spec fn spec_token_type() -> TokenType {
        TokenType::QVarId
    }

    open spec fn spec_expression() -> Seq<char> {
        r"(([A-Z][A-Za-z0-9']*\.)*[A-Z][A-Za-z0-9']*\.)?[a-z][A-Za-z0-9']*"@
    }

    proof fn lemma_match_within_line(s: Seq<char>, i: int) {
        if 0 <= i < s.len() && reused::is_small(s[i]) {
            reused::lemma_idrun_end(s, i + 1);
        } else {
            lemma_qvar_scan(s, i);
        }
    }

    fn expression() -> &'static str {
        r"(([A-Z][A-Za-z0-9']*\.)*[A-Z][A-Za-z0-9']*\.)?[a-z][A-Za-z0-9']*"
    }

    fn token_type() -> (t: TokenType) {
        TokenType::QVarId
    }

    fn needs_filtering() -> (b: bool) {
        true
    }

    fn except_for() -> (ws: Vec<&'static str>) {
        let ws: Vec<&'static str> = vec![
            "case",
            "class",
            "data",
            "default",
            "deriving",
            "do",
            "else",
            "foreign",
            "if",
            "import",
            "in",
            "infix",
            "infixl",
            "infixr",
            "instance",
            "let",
            "module",
            "newtype",
            "of",
            "then",
            "type",
            "where",
        ];
        ws
    }

    fn match_at(input: &str, i: usize) -> (r: Option<usize>) {
        let n = input.unicode_len();
        if i < n && reused::small(input.get_char(i)) {
            let e = reused::scan_idrun(input, i + 1);
            return Some(e - i);
        }
        if !(i < n && reused::big(input.get_char(i))) {
            return None;
        }
        let mut seg = i;
        loop
            invariant
                i <= seg < n,
                n == input@.len(),
                reused::is_big(input@[seg as int]),
                !reused::is_small(input@[i as int]),
                qvar_scan(input@, i as int) == qvar_scan(input@, seg as int),
            decreases n - seg,
        {
            let e = reused::scan_idrun(input, seg + 1);
            if e < n && input.get_char(e) == '.' {
                if e + 1 < n && reused::small(input.get_char(e + 1)) {
                    let end = reused::scan_idrun(input, e + 2);
                    return Some(end - i);
                } else if e + 1 < n && reused::big(input.get_char(e + 1)) {
                    seg = e + 1;
                } else {
                    return None;
                }
            } else {
                return None;
            }
        }
    }
}

impl regex::RegexLexeme for QVarSym {
    open spec fn spec_match_at(s: Seq<char>, i: int) -> Option<int> {
        if i < 0 || i > s.len() {
            None
        } else {
            Some(reused::symrun_end(s, qsym_qual_end(s, i)) - i)
        }
    }

    open spec fn spec_needs_filtering() -> bool {
        true
    }

    open spec fn spec_excluded_words() -> Seq<Seq<char>> {
        qsym_excluded_words()
    }

    open spec fn spec_token_type() -> TokenType {
        TokenType::QVarSym
    }

    open spec fn spec_expression() -> Seq<char> {
        r"(([A-Z][A-Za-z0-9']*\.)*[A-Z][A-Za-z0-9']*\.)?([!#$%&*+./<=>?@\\^|~-])?([!#$%&*+./<=>?@\\^|~:-])*"@
    }

    proof fn lemma_match_within_line(s: Seq<char>, i: int) {
        lemma_qsym_qual(s, i);
        reused::lemma_symrun_end(s, qsym_qual_end(s, i));
    }

    fn expression() -> &'static str {
        r"(([A-Z][A-Za-z0-9']*\.)*[A-Z][A-Za-z0-9']*\.)?([!#$%&*+./<=>?@\\^|~-])?([!#$%&*+./<=>?@\\^|~:-])*"
    }

    fn token_type() -> (t: TokenType) {
        TokenType::QVarSym
    }

    fn needs_filtering() -> (b: bool) {
        true
    }

    fn except_for() -> (ws: Vec<&'static str>) {
        let ws: Vec<&'static str> = vec![
            "--",
            "..",
            ":",
            "::",
            "=",
            "\\",
            "|",
            "<-",
            "->",
            "@",
            "~",
            "=>",
        ];
        ws
    }

    fn match_at(input: &str, i: usize) -> (r: Option<usize>) {
        let n = input.unicode_len();
        let mut seg = i;
        loop
            invariant
                i <= seg <= n,
                n == input@.len(),
                qsym_qual_end(input@, i as int) == qsym_qual_end(input@, seg as int),
            decreases n - seg,
        {
            if seg < n && reused::big(input.get_char(seg)) {
                let e = reused::scan_idrun(input, seg + 1);
                if e < n && input.get_char(e) == '.' {
                    seg = e + 1;
                } else {
                    let end = reused::scan_symrun(input, seg);
                    return Some(end - i);
                }
            } else {
                let end = reused::scan_symrun(input, seg);
                return Some(end - i);
            }
        }
    }
}

impl regex::RegexLexeme for QConSym {
    open spec fn spec_match_at(s: Seq<char>, i: int) -> Option<int> {
        if i < 0 || i >= s.len() {
            None
        } else if s[i] == ':' {
            Some(reused::symrun_end(s, i + 1) - i)
        } else if reused::is_big(s[i]) {
            let qe = qsym_qual_end(s, i);
            if qe > i && qe < s.len() && s[qe] == ':' {
                Some(reused::symrun_end(s, qe + 1) - i)
            } else {
                None
            }
        } else {
            None
        }
    }

    open spec fn spec_needs_filtering() -> bool {
        true
    }

    open spec fn spec_excluded_words() -> Seq<Seq<char>> {
        qsym_excluded_words()
    }

    open spec fn spec_token_type() -> TokenType {
        TokenType::QConSym
    }

    open spec fn spec_expression() -> Seq<char> {
        r"(([A-Z][A-Za-z0-9']*\.)*[A-Z][A-Za-z0-9']*\.)?:([!#$%&*+./<=>?@\\^|~:-])*"@
    }

    proof fn lemma_match_within_line(s: Seq<char>, i: int) {
        if 0 <= i < s.len() {
            if s[i] == ':' {
                reused::lemma_symrun_end(s, i + 1);
            } else if reused::is_big(s[i]) {
                lemma_qsym_qual(s, i);
                let qe = qsym_qual_end(s, i);
                if qe > i && qe < s.len() && s[qe] == ':' {
                    reused::lemma_symrun_end(s, qe + 1);
                }
            }
        }
    }

    fn expression() -> &'static str {
        r"(([A-Z][A-Za-z0-9']*\.)*[A-Z][A-Za-z0-9']*\.)?:([!#$%&*+./<=>?@\\^|~:-])*"
    }

    fn token_type() -> (t: TokenType) {
        TokenType::QConSym
    }

    fn needs_filtering() -> (b: bool) {
        true
    }

    fn except_for() -> (ws: Vec<&'static str>) {
        let ws: Vec<&'static str> = vec![
            "--",
            "..",
            ":",
            "::",
            "=",
            "\\",
            "|",
            "<-",
            "->",
            "@",
            "~",
            "=>",
        ];
        ws
    }

    fn match_at(input: &str, i: usize) -> (r: Option<usize>) {
        let n = input.unicode_len();
        if !(i < n) {
            return None;
        }
        let c = input.get_char(i);
        if c == ':' {
            let end = reused::scan_symrun(input, i + 1);
            return Some(end - i);
        }
        if !reused::big(c) {
            return None;
        }
        let mut seg = i;
        loop
            invariant
                i <= seg <= n,
                n == input@.len(),
                input@[i as int] != ':',
                reused::is_big(input@[i as int]),
                qsym_qual_end(input@, i as int) == qsym_qual_end(input@, seg as int),
            decreases n - seg,
        {
            if seg < n && reused::big(input.get_char(seg)) {
                let e = reused::scan_idrun(input, seg + 1);
                if e < n && input.get_char(e) == '.' {
                    seg = e + 1;
                } else {
                    return None;
                }
            } else {
                if seg > i && seg < n && input.get_char(seg) == ':' {
                    let end = reused::scan_symrun(input, seg + 1);
                    return Some(end - i);
                }
                return None;
            }
        }
    }
}

impl lexeme::Lexeme for QConId {
    open spec fn spec_recognize(s: Seq<char>) -> lexeme::SpecOutcome {
        regex::spec_outcome_from::<QConId>(s, 0)
    }

    fn recognize(input: &str) -> (r: Result<Token, lexeme::Error>) {
        match regex::recognize_from::<QConId>(input, 0) {
            Ok((t, _)) => Ok(t),
            Err(e) => Err(e),
        }
    }
}

impl lexeme::Lexeme for QVarId {
    open spec fn spec_recognize(s: Seq<char>) -> lexeme::SpecOutcome {
        regex::spec_outcome_from::<QVarId>(s, 0)
    }

    fn recognize(input: &str) -> (r: Result<Token, lexeme::Error>) {
        match regex::recognize_from::<QVarId>(input, 0) {
            Ok((t, _)) => Ok(t),
            Err(e) => Err(e),
        }
    }
}

impl lexeme::Lexeme for QVarSym {
    open spec fn spec_recognize(s: Seq<char>) -> lexeme::SpecOutcome {
        regex::spec_outcome_from::<QVarSym>(s, 0)
    }

    fn recognize(input: &str) -> (r: Result<Token, lexeme::Error>) {
        match regex::recognize_from::<QVarSym>(input, 0) {
            Ok((t, _)) => Ok(t),
            Err(e) => Err(e),
        }
    }
}

impl lexeme::Lexeme for QConSym {
    open spec fn spec_recognize(s: Seq<char>) -> lexeme::SpecOutcome {
        regex::spec_outcome_from::<QConSym>(s, 0)
    }

    fn recognize(input: &str) -> (r: Result<Token, lexeme::Error>) {
        match regex::recognize_from::<QConSym>(input, 0) {
            Ok((t, _)) => Ok(t),
            Err(e) => Err(e),
        }
    }
}

} // verus!
