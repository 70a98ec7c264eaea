//! Terminals shared by the lexeme definitions: the character classes of the
//! grammar, the scanning helpers the concrete recognizers are built from,
//! and the class-tag lexemes composite patterns are assembled with.

use vstd::prelude::*;
use crate::lexeme;
use crate::regex;
use crate::token::{Token, TokenType};

verus! {

// ---- Character classes ----

/// An upper-case ASCII letter.
pub open spec fn is_big(c: char) -> bool {
    'A' as u32 <= c as u32 && c as u32 <= 'Z' as u32
}

/// A lower-case ASCII letter.
pub open spec fn is_small(c: char) -> bool {
    'a' as u32 <= c as u32 && c as u32 <= 'z' as u32
}

/// A decimal digit.
pub open spec fn is_digit(c: char) -> bool {
    '0' as u32 <= c as u32 && c as u32 <= '9' as u32
}

/// An octal digit.
pub open spec fn is_octit(c: char) -> bool {
    '0' as u32 <= c as u32 && c as u32 <= '7' as u32
}

/// A hexadecimal digit.
pub open spec fn is_hexit(c: char) -> bool {
    is_digit(c) || ('A' as u32 <= c as u32 && c as u32 <= 'F' as u32) || ('a' as u32 <= c as u32
        && c as u32 <= 'f' as u32)
}

/// A character that may continue an identifier segment: a letter, a digit,
/// or an apostrophe.
pub open spec fn is_idchar(c: char) -> bool {
    is_big(c) || is_small(c) || is_digit(c) || c == '\''
}

/// A symbol character as the operator lexemes use it, apostrophe-colon runs
/// excluded: the class an operator may begin with.
pub open spec fn is_symbol(c: char) -> bool {
    ||| c == '!'
    ||| c == '#'
    ||| c == '$'
    ||| c == '%'
    ||| c == '&'
    ||| c == '*'
    ||| c == '+'
    ||| c == '.'
    ||| c == '/'
    ||| c == '<'
    ||| c == '='
    ||| c == '>'
    ||| c == '?'
    ||| c == '@'
    ||| c == '\\'
    ||| c == '^'
    ||| c == '|'
    ||| c == '-'
    ||| c == '~'
}

/// A symbol character or a colon: the class an operator may continue with.
pub open spec fn is_symbolic(c: char) -> bool {
    is_symbol(c) || c == ':'
}

/// The whitespace characters the driver skips.
pub open spec fn is_whitechar(c: char) -> bool {
    c == ' ' || c == '\t' || c == '\r' || c == '\n'
}

/// Exec check for [`is_big`].
pub fn big(c: char) -> (r: bool)
    ensures
        r == is_big(c),
{
    'A' as u32 <= c as u32 && c as u32 <= 'Z' as u32
}

/// Exec check for [`is_small`].
pub fn small(c: char) -> (r: bool)
    ensures
        r == is_small(c),
{
    'a' as u32 <= c as u32 && c as u32 <= 'z' as u32
}

/// Exec check for [`is_digit`].
pub fn digit(c: char) -> (r: bool)
    ensures
        r == is_digit(c),
{
    '0' as u32 <= c as u32 && c as u32 <= '9' as u32
}

/// Exec check for [`is_octit`].
pub fn octit(c: char) -> (r: bool)
    ensures
        r == is_octit(c),
{
    '0' as u32 <= c as u32 && c as u32 <= '7' as u32
}

/// Exec check for [`is_hexit`].
pub fn hexit(c: char) -> (r: bool)
    ensures
        r == is_hexit(c),
{
    digit(c) || ('A' as u32 <= c as u32 && c as u32 <= 'F' as u32) || ('a' as u32 <= c as u32 && c
        as u32 <= 'f' as u32)
}

/// Exec check for [`is_idchar`].
pub fn idchar(c: char) -> (r: bool)
    ensures
        r == is_idchar(c),
{
    big(c) || small(c) || digit(c) || c == '\''
}

/// Exec check for [`is_symbol`].
pub fn symbol(c: char) -> (r: bool)
    ensures
        r == is_symbol(c),
{
    c == '!' || c == '#' || c == '$' || c == '%' || c == '&' || c == '*' || c == '+' || c == '.'
        || c == '/' || c == '<' || c == '=' || c == '>' || c == '?' || c == '@' || c == '\\'
        || c == '^' || c == '|' || c == '-' || c == '~'
}

/// Exec check for [`is_symbolic`].
pub fn symbolic(c: char) -> (r: bool)
    ensures
        r == is_symbolic(c),
{
    symbol(c) || c == ':'
}

/// Exec check for [`is_whitechar`].
pub fn whitechar(c: char) -> (r: bool)
    ensures
        r == is_whitechar(c),
{
    c == ' ' || c == '\t' || c == '\r' || c == '\n'
}

// ---- Line-width bookkeeping ----

/// No line break occurs at the positions `i <= k < j` of `s`.
pub open spec fn no_newlines(s: Seq<char>, i: int, j: int) -> bool {
    forall|k: int| i <= k < j ==> s[k] != '\n'
}

/// Every break-free stretch of `s` fits in a sixteen-bit column count.
///
/// Tokens and span entries never cross a line break, so under this bound
/// every width a recognizer reports fits the span's entry type.
pub open spec fn lines_fit(s: Seq<char>) -> bool {
    forall|i: int, j: int|
        0 <= i <= j <= s.len() && #[trigger] no_newlines(s, i, j) ==> j - i <= 0xFFFF
}

/// A buffer no longer than one line's worth of columns trivially has all
/// its lines fit.
pub proof fn lemma_short_input_lines_fit(s: Seq<char>)
    requires
        s.len() <= 0xFFFF,
    ensures
        lines_fit(s),
{
}

// ---- Scanning helpers ----

/// The end of the run of identifier-tail characters that starts at `i`:
/// the first position at or after `i` that is out of range or holds a
/// character outside the class.
pub open spec fn idrun_end(s: Seq<char>, i: int) -> int
    decreases s.len() - i,
{
    if 0 <= i < s.len() && is_idchar(s[i]) {
        idrun_end(s, i + 1)
    } else {
        i
    }
}

/// What a run scan returns: the run is in range, every character in it is
/// in the class, and the run is maximal.
pub proof fn lemma_idrun_end(s: Seq<char>, i: int)
    requires
        0 <= i <= s.len(),
    ensures
        i <= idrun_end(s, i) <= s.len(),
        forall|k: int| i <= k < idrun_end(s, i) ==> is_idchar(s[k]),
        idrun_end(s, i) < s.len() ==> !is_idchar(s[idrun_end(s, i)]),
    decreases s.len() - i,
{
    if i < s.len() && is_idchar(s[i]) {
        lemma_idrun_end(s, i + 1);
    }
}

/// A run over a stretch that is identifier characters throughout reaches
/// its end.
pub proof fn lemma_idrun_full(s: Seq<char>, i: int)
    requires
        0 <= i <= s.len(),
        forall|j: int| i <= j < s.len() ==> is_idchar(s[j]),
    ensures
        idrun_end(s, i) == s.len(),
    decreases s.len() - i,
{
    if i < s.len() {
        lemma_idrun_full(s, i + 1);
    }
}

/// The end of the run of symbolic characters that starts at `i`.
pub open spec fn symrun_end(s: Seq<char>, i: int) -> int
    decreases s.len() - i,
{
    if 0 <= i < s.len() && is_symbolic(s[i]) {
        symrun_end(s, i + 1)
    } else {
        i
    }
}

/// The run returned by [`symrun_end`] is in range, symbolic throughout,
/// and maximal.
pub proof fn lemma_symrun_end(s: Seq<char>, i: int)
    requires
        0 <= i <= s.len(),
    ensures
        i <= symrun_end(s, i) <= s.len(),
        forall|k: int| i <= k < symrun_end(s, i) ==> is_symbolic(s[k]),
        symrun_end(s, i) < s.len() ==> !is_symbolic(s[symrun_end(s, i)]),
    decreases s.len() - i,
{
    if i < s.len() && is_symbolic(s[i]) {
        lemma_symrun_end(s, i + 1);
    }
}

/// The end of the run of decimal digits that starts at `i`.
pub open spec fn digitrun_end(s: Seq<char>, i: int) -> int
    decreases s.len() - i,
{
    if 0 <= i < s.len() && is_digit(s[i]) {
        digitrun_end(s, i + 1)
    } else {
        i
    }
}

/// The run returned by [`digitrun_end`] is in range, digits throughout,
/// and maximal.
pub proof fn lemma_digitrun_end(s: Seq<char>, i: int)
    requires
        0 <= i <= s.len(),
    ensures
        i <= digitrun_end(s, i) <= s.len(),
        forall|k: int| i <= k < digitrun_end(s, i) ==> is_digit(s[k]),
        digitrun_end(s, i) < s.len() ==> !is_digit(s[digitrun_end(s, i)]),
    decreases s.len() - i,
{
    if i < s.len() && is_digit(s[i]) {
        lemma_digitrun_end(s, i + 1);
    }
}

/// The end of the run of octal digits that starts at `i`.
pub open spec fn octitrun_end(s: Seq<char>, i: int) -> int
    decreases s.len() - i,
{
    if 0 <= i < s.len() && is_octit(s[i]) {
        octitrun_end(s, i + 1)
    } else {
        i
    }
}

/// The run returned by [`octitrun_end`] is in range, octal digits
/// throughout, and maximal.
pub proof fn lemma_octitrun_end(s: Seq<char>, i: int)
    requires
        0 <= i <= s.len(),
    ensures
        i <= octitrun_end(s, i) <= s.len(),
        forall|k: int| i <= k < octitrun_end(s, i) ==> is_octit(s[k]),
        octitrun_end(s, i) < s.len() ==> !is_octit(s[octitrun_end(s, i)]),
    decreases s.len() - i,
{
    if i < s.len() && is_octit(s[i]) {
        lemma_octitrun_end(s, i + 1);
    }
}

/// The end of the run of hexadecimal digits that starts at `i`.
pub open spec fn hexitrun_end(s: Seq<char>, i: int) -> int
    decreases s.len() - i,
{
    if 0 <= i < s.len() && is_hexit(s[i]) {
        hexitrun_end(s, i + 1)
    } else {
        i
    }
}

/// The run returned by [`hexitrun_end`] is in range, hexadecimal digits
/// throughout, and maximal.
pub proof fn lemma_hexitrun_end(s: Seq<char>, i: int)
    requires
        0 <= i <= s.len(),
    ensures
        i <= hexitrun_end(s, i) <= s.len(),
        forall|k: int| i <= k < hexitrun_end(s, i) ==> is_hexit(s[k]),
        hexitrun_end(s, i) < s.len() ==> !is_hexit(s[hexitrun_end(s, i)]),
    decreases s.len() - i,
{
    if i < s.len() && is_hexit(s[i]) {
        lemma_hexitrun_end(s, i + 1);
    }
}

/// Exec scan for [`idrun_end`].
pub fn scan_idrun(s: &str, i: usize) -> (r: usize)
    requires
        i <= s@.len(),
    ensures
        r == idrun_end(s@, i as int),
        i <= r <= s@.len(),
{
    let n = s.unicode_len();
    let mut j = i;
    while j < n && idchar(s.get_char(j))
        invariant
            i <= j <= n,
            n == s@.len(),
            idrun_end(s@, i as int) == idrun_end(s@, j as int),
        decreases n - j,
    {
        j += 1;
    }
    proof {
        lemma_idrun_end(s@, j as int);
    }
    j
}

/// Exec scan for [`symrun_end`].
pub fn scan_symrun(s: &str, i: usize) -> (r: usize)
    requires
        i <= s@.len(),
    ensures
        r == symrun_end(s@, i as int),
        i <= r <= s@.len(),
{
    let n = s.unicode_len();
    let mut j = i;
    while j < n && symbolic(s.get_char(j))
        invariant
            i <= j <= n,
            n == s@.len(),
            symrun_end(s@, i as int) == symrun_end(s@, j as int),
        decreases n - j,
    {
        j += 1;
    }
    proof {
        lemma_symrun_end(s@, j as int);
    }
    j
}

/// Exec scan for [`digitrun_end`].
pub fn scan_digitrun(s: &str, i: usize) -> (r: usize)
    requires
        i <= s@.len(),
    ensures
        r == digitrun_end(s@, i as int),
        i <= r <= s@.len(),
{
    let n = s.unicode_len();
    let mut j = i;
    while j < n && digit(s.get_char(j))
        invariant
            i <= j <= n,
            n == s@.len(),
            digitrun_end(s@, i as int) == digitrun_end(s@, j as int),
        decreases n - j,
    {
        j += 1;
    }
    proof {
        lemma_digitrun_end(s@, j as int);
    }
    j
}

/// Exec scan for [`octitrun_end`].
pub fn scan_octitrun(s: &str, i: usize) -> (r: usize)
    requires
        i <= s@.len(),
    ensures
        r == octitrun_end(s@, i as int),
        i <= r <= s@.len(),
{
    let n = s.unicode_len();
    let mut j = i;
    while j < n && octit(s.get_char(j))
        invariant
            i <= j <= n,
            n == s@.len(),
            octitrun_end(s@, i as int) == octitrun_end(s@, j as int),
        decreases n - j,
    {
        j += 1;
    }
    proof {
        lemma_octitrun_end(s@, j as int);
    }
    j
}

/// Exec scan for [`hexitrun_end`].
pub fn scan_hexitrun(s: &str, i: usize) -> (r: usize)
    requires
        i <= s@.len(),
    ensures
        r == hexitrun_end(s@, i as int),
        i <= r <= s@.len(),
{
    let n = s.unicode_len();
    let mut j = i;
    while j < n && hexit(s.get_char(j))
        invariant
            i <= j <= n,
            n == s@.len(),
            hexitrun_end(s@, i as int) == hexitrun_end(s@, j as int),
        decreases n - j,
    {
        j += 1;
    }
    proof {
        lemma_hexitrun_end(s@, j as int);
    }
    j
}

// ---- Literal prefixes ----

/// The word `w` occurs in `s` starting exactly at position `i`.
pub open spec fn is_lit_prefix(s: Seq<char>, i: int, w: Seq<char>) -> bool {
    i + w.len() <= s.len() && s.subrange(i, i + w.len()) == w
}

/// Exec check for [`is_lit_prefix`].
pub fn lit_prefix(s: &str, i: usize, w: &str) -> (r: bool)
    requires
        i <= s@.len(),
    ensures
        r == is_lit_prefix(s@, i as int, w@),
{
    let n = s.unicode_len();
    let m = w.unicode_len();
    if m > n - i {
        return false;
    }
    let mut k: usize = 0;
    while k < m
        invariant
            0 <= k <= m,
            m == w@.len(),
            n == s@.len(),
            i + m <= n,
            forall|j: int| 0 <= j < k ==> s@[i + j] == w@[j],
        decreases m - k,
    {
        if s.get_char(i + k) != w.get_char(k) {
            proof {
                assert(s@.subrange(i as int, i + w@.len())[k as int] != w@[k as int]);
            }
            return false;
        }
        k += 1;
    }
    proof {
        assert(s@.subrange(i as int, i + w@.len()) =~= w@);
    }
    true
}

// ---- Class-tag lexemes ----

/// The match of a bare literal pattern at position `i`: the literal's
/// length where it occurs there, nothing otherwise.  An unbracketed class
/// expression such as `A-Z` means exactly its three characters; only the
/// bracketed form of [`regex::CharacterGroup`] would make it a class.
pub open spec fn lit_match_at(s: Seq<char>, i: int, w: Seq<char>) -> Option<int> {
    if is_lit_prefix(s, i, w) {
        Some(w.len() as int)
    } else {
        None
    }
}

/// A literal match of a break-free, non-empty, span-sized literal stays in
/// range and within one line.
pub proof fn lemma_lit_match_within(s: Seq<char>, i: int, w: Seq<char>)
    requires
        0 <= i <= s.len(),
        0 < w.len() <= 0xFFFF,
        forall|j: int| 0 <= j < w.len() ==> w[j] != '\n',
    ensures
        lit_match_at(s, i, w) matches Some(l) ==> 0 < l && i + l <= s.len() && no_newlines(
            s,
            i,
            i + l,
        ),
{
    if is_lit_prefix(s, i, w) {
        assert forall|p: int| i <= p < i + w.len() implies s[p] != '\n' by {
            assert(s.subrange(i, i + w.len())[p - i] == w[p - i]);
        }
    }
}

/// Exec check for [`lit_match_at`].
pub fn scan_lit(s: &str, i: usize, w: &'static str) -> (r: Option<usize>)
    requires
        i <= s@.len(),
    ensures
        regex::len_matches(r, lit_match_at(s@, i as int, w@)),
{
    if lit_prefix(s, i, w) {
        Some(w.unicode_len())
    } else {
        None
    }
}

/// The upper-case letter tag.
pub struct BigASCII {}

/// The lower-case letter tag.
pub struct LowASCII {}

/// The decimal digit tag.
pub struct Digit {}

/// The octal digit tag.
pub struct Octit {}

/// The hexadecimal digit tag; its expression is the eager composition of
/// the hexadecimal letter ranges with the digit tag's expression.
pub struct Hexit {}

impl regex::RegexLexeme for BigASCII {
    open spec fn spec_match_at(s: Seq<char>, i: int) -> Option<int> {
        lit_match_at(s, i, "A-Z"@)
    }

    open spec fn spec_needs_filtering() -> bool {
        false
    }

    open spec fn spec_excluded_words() -> Seq<Seq<char>> {
        Seq::empty()
    }

    open spec fn spec_token_type() -> TokenType {
        TokenType::BigASCII
    }

    open spec fn spec_expression() -> Seq<char> {
        "A-Z"@
    }

    proof fn lemma_match_within_line(s: Seq<char>, i: int) {
        reveal_strlit("A-Z");
        lemma_lit_match_within(s, i, "A-Z"@);
    }

    fn expression() -> &'static str {
        "A-Z"
    }

    fn token_type() -> (t: TokenType) {
        TokenType::BigASCII
    }

    fn needs_filtering() -> (b: bool) {
        false
    }

    fn except_for() -> (ws: Vec<&'static str>) {
        Vec::new()
    }

    fn match_at(input: &str, i: usize) -> (r: Option<usize>) {
        scan_lit(input, i, "A-Z")
    }
}

impl regex::CharacterGroup for BigASCII {
    fn group_expression() -> (r: &'static str) {
        proof {
            reveal_strlit("[A-Z]");
            reveal_strlit("A-Z");
            assert("[A-Z]"@ =~= seq!['['] + "A-Z"@ + seq![']']);
        }
        "[A-Z]"
    }
}

impl regex::RegexLexeme for LowASCII {
    open spec fn spec_match_at(s: Seq<char>, i: int) -> Option<int> {
        lit_match_at(s, i, "a-z"@)
    }

    open spec fn spec_needs_filtering() -> bool {
        false
    }

    open spec fn spec_excluded_words() -> Seq<Seq<char>> {
        Seq::empty()
    }

    open spec fn spec_token_type() -> TokenType {
        TokenType::LowASCII
    }

    open spec fn spec_expression() -> Seq<char> {
        "a-z"@
    }

    proof fn lemma_match_within_line(s: Seq<char>, i: int) {
        reveal_strlit("a-z");
        lemma_lit_match_within(s, i, "a-z"@);
    }

    fn expression() -> &'static str {
        "a-z"
    }

    fn token_type() -> (t: TokenType) {
        TokenType::LowASCII
    }

    fn needs_filtering() -> (b: bool) {
        false
    }

    fn except_for() -> (ws: Vec<&'static str>) {
        Vec::new()
    }

    fn match_at(input: &str, i: usize) -> (r: Option<usize>) {
        scan_lit(input, i, "a-z")
    }
}

impl regex::CharacterGroup for LowASCII {
    fn group_expression() -> (r: &'static str) {
        proof {
            reveal_strlit("[a-z]");
            reveal_strlit("a-z");
            assert("[a-z]"@ =~= seq!['['] + "a-z"@ + seq![']']);
        }
        "[a-z]"
    }
}

impl regex::RegexLexeme for Digit {
    open spec fn spec_match_at(s: Seq<char>, i: int) -> Option<int> {
        lit_match_at(s, i, "0-9"@)
    }

    open spec fn spec_needs_filtering() -> bool {
        false
    }

    open spec fn spec_excluded_words() -> Seq<Seq<char>> {
        Seq::empty()
    }

    open spec fn spec_token_type() -> TokenType {
        TokenType::Digit
    }

    open spec fn spec_expression() -> Seq<char> {
        "0-9"@
    }

    proof fn lemma_match_within_line(s: Seq<char>, i: int) {
        reveal_strlit("0-9");
        lemma_lit_match_within(s, i, "0-9"@);
    }

    fn expression() -> &'static str {
        "0-9"
    }

    fn token_type() -> (t: TokenType) {
        TokenType::Digit
    }

    fn needs_filtering() -> (b: bool) {
        false
    }

    fn except_for() -> (ws: Vec<&'static str>) {
        Vec::new()
    }

    fn match_at(input: &str, i: usize) -> (r: Option<usize>) {
        scan_lit(input, i, "0-9")
    }
}

impl regex::CharacterGroup for Digit {
    fn group_expression() -> (r: &'static str) {
        proof {
            reveal_strlit("[0-9]");
            reveal_strlit("0-9");
            assert("[0-9]"@ =~= seq!['['] + "0-9"@ + seq![']']);
        }
        "[0-9]"
    }
}

impl regex::RegexLexeme for Octit {
    open spec fn spec_match_at(s: Seq<char>, i: int) -> Option<int> {
        lit_match_at(s, i, "0-7"@)
    }

    open spec fn spec_needs_filtering() -> bool {
        false
    }

    open spec fn spec_excluded_words() -> Seq<Seq<char>> {
        Seq::empty()
    }

    open spec fn spec_token_type() -> TokenType {
        TokenType::Octit
    }

    open spec fn spec_expression() -> Seq<char> {
        "0-7"@
    }

    proof fn lemma_match_within_line(s: Seq<char>, i: int) {
        reveal_strlit("0-7");
        lemma_lit_match_within(s, i, "0-7"@);
    }

    fn expression() -> &'static str {
        "0-7"
    }

    fn token_type() -> (t: TokenType) {
        TokenType::Octit
    }

    fn needs_filtering() -> (b: bool) {
        false
    }

    fn except_for() -> (ws: Vec<&'static str>) {
        Vec::new()
    }

    fn match_at(input: &str, i: usize) -> (r: Option<usize>) {
        scan_lit(input, i, "0-7")
    }
}

impl regex::CharacterGroup for Octit {
    fn group_expression() -> (r: &'static str) {
        proof {
            reveal_strlit("[0-7]");
            reveal_strlit("0-7");
            assert("[0-7]"@ =~= seq!['['] + "0-7"@ + seq![']']);
        }
        "[0-7]"
    }
}

impl regex::RegexLexeme for Hexit {
    open spec fn spec_match_at(s: Seq<char>, i: int) -> Option<int> {
        lit_match_at(s, i, "A-Fa-f0-9"@)
    }

    open spec fn spec_needs_filtering() -> bool {
        false
    }

    open spec fn spec_excluded_words() -> Seq<Seq<char>> {
        Seq::empty()
    }

    open spec fn spec_token_type() -> TokenType {
        TokenType::Hexit
    }

    open spec fn spec_expression() -> Seq<char> {
        "A-Fa-f0-9"@
    }

    proof fn lemma_match_within_line(s: Seq<char>, i: int) {
        reveal_strlit("A-Fa-f0-9");
        lemma_lit_match_within(s, i, "A-Fa-f0-9"@);
    }

    fn expression() -> &'static str {
        "A-Fa-f0-9"
    }

    fn token_type() -> (t: TokenType) {
        TokenType::Hexit
    }

    fn needs_filtering() -> (b: bool) {
        false
    }

    fn except_for() -> (ws: Vec<&'static str>) {
        Vec::new()
    }

    fn match_at(input: &str, i: usize) -> (r: Option<usize>) {
        scan_lit(input, i, "A-Fa-f0-9")
    }
}

/// The hexadecimal class expression is the eager composition of the
/// hexadecimal letter ranges with the digit tag's expression, built once
/// as immutable configuration.
pub proof fn lemma_hexit_composition()
    ensures
        <Hexit as regex::RegexLexeme>::spec_expression() == "A-Fa-f"@ + <Digit as regex::RegexLexeme>::spec_expression(),
{
    reveal_strlit("A-Fa-f0-9");
    reveal_strlit("A-Fa-f");
    reveal_strlit("0-9");
    assert("A-Fa-f0-9"@ =~= "A-Fa-f"@ + "0-9"@);
}

impl regex::CharacterGroup for Hexit {
    fn group_expression() -> (r: &'static str) {
        proof {
            reveal_strlit("[A-Fa-f0-9]");
            reveal_strlit("A-Fa-f0-9");
            assert("[A-Fa-f0-9]"@ =~= seq!['['] + "A-Fa-f0-9"@ + seq![']']);
        }
        "[A-Fa-f0-9]"
    }
}

impl lexeme::Lexeme for BigASCII {
    open spec fn spec_recognize(s: Seq<char>) -> lexeme::SpecOutcome {
        regex::spec_outcome_from::<BigASCII>(s, 0)
    }

    fn recognize(input: &str) -> (r: Result<Token, lexeme::Error>) {
        match regex::recognize_from::<BigASCII>(input, 0) {
            Ok((t, _)) => Ok(t),
            Err(e) => Err(e),
        }
    }
}

impl lexeme::Lexeme for LowASCII {
    open spec fn spec_recognize(s: Seq<char>) -> lexeme::SpecOutcome {
        regex::spec_outcome_from::<LowASCII>(s, 0)
    }

    fn recognize(input: &str) -> (r: Result<Token, lexeme::Error>) {
        match regex::recognize_from::<LowASCII>(input, 0) {
            Ok((t, _)) => Ok(t),
            Err(e) => Err(e),
        }
    }
}

impl lexeme::Lexeme for Digit {
    open spec fn spec_recognize(s: Seq<char>) -> lexeme::SpecOutcome {
        regex::spec_outcome_from::<Digit>(s, 0)
    }

    fn recognize(input: &str) -> (r: Result<Token, lexeme::Error>) {
        match regex::recognize_from::<Digit>(input, 0) {
            Ok((t, _)) => Ok(t),
            Err(e) => Err(e),
        }
    }
}

impl lexeme::Lexeme for Octit {
    open spec fn spec_recognize(s: Seq<char>) -> lexeme::SpecOutcome {
        regex::spec_outcome_from::<Octit>(s, 0)
    }

    fn recognize(input: &str) -> (r: Result<Token, lexeme::Error>) {
        match regex::recognize_from::<Octit>(input, 0) {
            Ok((t, _)) => Ok(t),
            Err(e) => Err(e),
        }
    }
}

impl lexeme::Lexeme for Hexit {
    open spec fn spec_recognize(s: Seq<char>) -> lexeme::SpecOutcome {
        regex::spec_outcome_from::<Hexit>(s, 0)
    }

    fn recognize(input: &str) -> (r: Result<Token, lexeme::Error>) {
        match regex::recognize_from::<Hexit>(input, 0) {
            Ok((t, _)) => Ok(t),
            Err(e) => Err(e),
        }
    }
}

} // verus!
