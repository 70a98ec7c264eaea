//! The lexeme framework: anchored matching with optional exclusion-list
//! filtering, shared by every pattern-shaped recognizer.
//!
//! Each concrete lexeme declares its pattern and gives it an exact meaning
//! through `spec_match_at`, the preferred match length at a position.  The
//! framework turns that into the recognition protocol of the whole crate:
//! the leftmost match position is searched, a match that does not start at
//! the probe point is rejected as distant rather than silently accepted,
//! and a filtered lexeme refuses text that is exactly one of its excluded
//! words.

use vstd::prelude::*;
use crate::lexeme;
use crate::reused;
use crate::token::{Token, TokenType};

verus! {

/// How a pattern-backed recognizer can fail to produce a token.
#[derive(Clone, Copy, Debug, PartialEq, Eq, Structural)]
pub enum Error {
    /// The pattern matches nowhere in the probed text.
    NoMatch,
    /// The pattern matches, but only at a position after the probe point.
    DistantMatch,
    /// A lexeme definition carries a malformed pattern.  The patterns of
    /// this crate are fixed and well formed, so no input produces it; the
    /// variant completes the taxonomy of the framework.
    InvalidExpression,
    /// The matched text collides with the exclusion list.  The
    /// recognizers of this crate report that collision as
    /// [`lexeme::Error::FoundConflictingLexeme`] instead; the variant
    /// completes the taxonomy of the framework.
    LexemeNotAllowed,
}

/// The executable match length `r` realizes the abstract one `m`.
pub open spec fn len_matches(r: Option<usize>, m: Option<int>) -> bool {
    match (r, m) {
        (Some(a), Some(b)) => a as int == b,
        (None, None) => true,
        _ => false,
    }
}

/// A lexeme defined by a pattern: a declarative expression, a token kind,
/// and two optional behaviors — exclusion filtering and nothing else.
///
/// `spec_match_at` is the pattern's exact meaning: the length of the match
/// the pattern prefers at position `i` of `s`, or `None` when it cannot
/// match there at all.
pub trait RegexLexeme {
    /// The preferred match length at position `i` of `s`.
    spec fn spec_match_at(s: Seq<char>, i: int) -> Option<int>;

    /// Whether matched text is held against the excluded words.
    spec fn spec_needs_filtering() -> bool;

    /// The excluded words, in order.
    spec fn spec_excluded_words() -> Seq<Seq<char>>;

    /// The kind of token this lexeme produces.
    spec fn spec_token_type() -> TokenType;

    /// The pattern as a character sequence: the value
    /// [`RegexLexeme::expression`] returns on every call.
    spec fn spec_expression() -> Seq<char>;

    /// A match stays within one line and within the input: its length is
    /// non-negative, it ends inside `s`, and it covers no line break.
    proof fn lemma_match_within_line(s: Seq<char>, i: int)
        requires
            0 <= i <= s.len(),
            Self::spec_match_at(s, i) is Some,
        ensures
            ({
                let l = Self::spec_match_at(s, i)->Some_0;
                0 <= l && i + l <= s.len() && reused::no_newlines(s, i, i + l)
            }),
    ;

    /// The pattern, in the regular-expression dialect the grammar is
    /// written in.  It is the declarative form of the rule whose exact
    /// meaning `spec_match_at` gives; nothing interprets it at run time.
    fn expression() -> (r: &'static str)
        ensures
            r@ == Self::spec_expression(),
    ;

    /// The kind of token this lexeme produces.
    fn token_type() -> (t: TokenType)
        ensures
            t == Self::spec_token_type(),
    ;

    /// Whether matched text is held against [`RegexLexeme::except_for`].
    fn needs_filtering() -> (b: bool)
        ensures
            b == Self::spec_needs_filtering(),
    ;

    /// The excluded words, in order.
    fn except_for() -> (ws: Vec<&'static str>)
        ensures
            ws@.len() == Self::spec_excluded_words().len(),
            forall|k: int|
                0 <= k < ws@.len() ==> ws@[k]@ == Self::spec_excluded_words()[k],
    ;

    /// Computes the preferred match length at position `i`.
    fn match_at(input: &str, i: usize) -> (r: Option<usize>)
        requires
            i <= input@.len(),
        ensures
            len_matches(r, Self::spec_match_at(input@, i as int)),
    ;
}

/// A lexeme whose expression is meant as a character class: its pattern
/// wrapped in one pair of square brackets.  The bracketed form is built
/// eagerly and stored as immutable configuration beside the plain one.
pub trait CharacterGroup: RegexLexeme {
    /// The pattern of [`RegexLexeme::expression`], wrapped in `[` and `]`:
    /// every call returns exactly the base pattern between one opening and
    /// one closing bracket.
    fn group_expression() -> (r: &'static str)
        ensures
            r@ == seq!['['] + Self::spec_expression() + seq![']'],
    ;
}

/// The leftmost match of `L` at or after position `i`: its start position
/// and its length.
pub open spec fn spec_first_match<L: RegexLexeme>(s: Seq<char>, i: int) -> Option<(int, int)>
    decreases s.len() - i + 1,
{
    if i < 0 || i > s.len() {
        None
    } else {
        match L::spec_match_at(s, i) {
            Some(l) => Some((i, l)),
            None => spec_first_match::<L>(s, i + 1),
        }
    }
}

/// A leftmost match lies at or after the probe point, within the input,
/// and is a real match of the lexeme at its position.
pub proof fn lemma_first_match_pos<L: RegexLexeme>(s: Seq<char>, i: int)
    requires
        0 <= i,
    ensures
        spec_first_match::<L>(s, i) matches Some((p, l)) ==> i <= p <= s.len()
            && L::spec_match_at(s, p) == Some(l),
    decreases s.len() - i + 1,
{
    if i <= s.len() {
        match L::spec_match_at(s, i) {
            Some(_) => {},
            None => {
                lemma_first_match_pos::<L>(s, i + 1);
            },
        }
    }
}

/// The matched text is exactly one of the excluded words of `L`.
pub open spec fn spec_excluded<L: RegexLexeme>(t: Seq<char>) -> bool {
    exists|k: int|
        0 <= k < L::spec_excluded_words().len() && L::spec_excluded_words()[k] == t
}

/// The raw anchored-match outcome of probing `s` at position `at`: the
/// match length when the leftmost match starts exactly there, the distant
/// error when it starts later, and the no-match error when there is none.
pub open spec fn spec_raw_match_from<L: RegexLexeme>(s: Seq<char>, at: int) -> Result<int, Error> {
    match spec_first_match::<L>(s, at) {
        None => Err(Error::NoMatch),
        Some((p, l)) => if p > at {
            Err(Error::DistantMatch)
        } else {
            Ok(l)
        },
    }
}

/// The full outcome of probing `s` at position `at`: the raw anchored
/// match, then the exclusion filter, then a one-entry span of the match
/// length.
pub open spec fn spec_outcome_from<L: RegexLexeme>(s: Seq<char>, at: int) -> lexeme::SpecOutcome {
    match spec_raw_match_from::<L>(s, at) {
        Err(e) => Err(lexeme::Error::Regex(e)),
        Ok(l) => if L::spec_needs_filtering() && spec_excluded::<L>(s.subrange(at, at + l)) {
            Err(lexeme::Error::FoundConflictingLexeme)
        } else {
            Ok((L::spec_token_type(), seq![l as u16]))
        },
    }
}

/// The executable result `r` realizes the positioned outcome `m` of a
/// probe at `at`: same error, or a token of the modeled kind and span
/// together with the position just past the match.
pub open spec fn from_result_matches(
    r: Result<(Token, usize), lexeme::Error>,
    m: lexeme::SpecOutcome,
    at: int,
) -> bool {
    match (r, m) {
        (Ok((t, end)), Ok((tt, sp))) => t.token_type == tt && t.span@ == sp && sp.len() == 1
            && end == at + sp[0],
        (Err(a), Err(b)) => a == b,
        _ => false,
    }
}

/// Anchored matching is a law of the framework, not a habit of its
/// callers: whenever a lexeme's leftmost match begins after the probe
/// point, the probe's outcome is the distant-match rejection — the match
/// is never silently re-searched from the later position.
pub proof fn lemma_anchored_match<L: RegexLexeme>(s: Seq<char>, at: int)
    requires
        0 <= at <= s.len(),
        spec_first_match::<L>(s, at) matches Some((p, l)) && p > at,
    ensures
        spec_outcome_from::<L>(s, at) == Err::<(TokenType, Seq<u16>), lexeme::Error>(
            lexeme::Error::Regex(Error::DistantMatch),
        ),
{
}

/// Searches for the leftmost match of `L` at or after `at` and applies the
/// anchoring policy: only a match starting exactly at `at` is accepted.
pub fn recognize_raw_match_from<L: RegexLexeme>(input: &str, at: usize) -> (r: Result<
    usize,
    Error,
>)
    requires
        at <= input@.len(),
    ensures
        match (r, spec_raw_match_from::<L>(input@, at as int)) {
            (Ok(l), Ok(m)) => l as int == m && at + l <= input@.len(),
            (Err(a), Err(b)) => a == b,
            _ => false,
        },
{
    let n = input.unicode_len();
    match L::match_at(input, at) {
        Some(l) => {
            proof {
                L::lemma_match_within_line(input@, at as int);
            }
            return Ok(l);
        },
        None => {},
    }
    let mut i = at;
    loop
        invariant
            at <= i <= n,
            n == input@.len(),
            spec_first_match::<L>(input@, at as int) == spec_first_match::<L>(
                input@,
                i + 1,
            ),
        decreases n - i,
    {
        if i == n {
            return Err(Error::NoMatch);
        }
        i += 1;
        match L::match_at(input, i) {
            Some(_) => {
                return Err(Error::DistantMatch);
            },
            None => {},
        }
    }
}

/// Whether the text of `input` between `at` and `at + l` is one of the
/// excluded words of `L`.
pub fn is_excluded<L: RegexLexeme>(input: &str, at: usize, l: usize) -> (r: bool)
    requires
        at + l <= input@.len(),
    ensures
        r == spec_excluded::<L>(input@.subrange(at as int, at + l)),
{
    let ghost t = input@.subrange(at as int, at + l);
    let ws = L::except_for();
    let m = ws.len();
    let mut k: usize = 0;
    while k < m
        invariant
            0 <= k <= m,
            m == ws@.len(),
            at + l <= input@.len(),
            t == input@.subrange(at as int, at + l),
            ws@.len() == L::spec_excluded_words().len(),
            forall|j: int|
                0 <= j < ws@.len() ==> ws@[j]@ == L::spec_excluded_words()[j],
            forall|j: int| 0 <= j < k ==> L::spec_excluded_words()[j] != t,
        decreases m - k,
    {
        let w = ws[k];
        if w.unicode_len() == l && reused::lit_prefix(input, at, w) {
            proof {
                assert(input@.subrange(at as int, at + w@.len()) == w@);
                assert(L::spec_excluded_words()[k as int] == t);
            }
            return true;
        }
        k += 1;
    }
    false
}

/// Probes `input` at position `at` with the full protocol of `L`: anchored
/// match, exclusion filter, one-entry span.  On success, returns the token
/// and the position just past it.
pub fn recognize_from<L: RegexLexeme>(input: &str, at: usize) -> (r: Result<
    (Token, usize),
    lexeme::Error,
>)
    requires
        reused::lines_fit(input@),
        at <= input@.len(),
    ensures
        from_result_matches(r, spec_outcome_from::<L>(input@, at as int), at as int),
        r matches Ok((t, end)) ==> at <= end <= input@.len()
            && spec_raw_match_from::<L>(input@, at as int) == Ok::<int, Error>(end - at),
{
    let n = input.unicode_len();
    let l = match recognize_raw_match_from::<L>(input, at) {
        Ok(l) => l,
        Err(e) => {
            return Err(lexeme::Error::Regex(e));
        },
    };
    proof {
        lemma_first_match_pos::<L>(input@, at as int);
        assert(L::spec_match_at(input@, at as int) == Some(l as int));
        L::lemma_match_within_line(input@, at as int);
        assert(reused::no_newlines(input@, at as int, at + l));
        assert(l <= 0xFFFF);
    }
    if L::needs_filtering() && is_excluded::<L>(input, at, l) {
        return Err(lexeme::Error::FoundConflictingLexeme);
    }
    let token = Token { token_type: L::token_type(), span: vec![l as u16] };
    proof {
        assert(token.span@ =~= seq![l as u16]);
    }
    Ok((token, at + l))
}

} // verus!
