//! The tokenizer loop: whitespace skipping, the single-character fast path,
//! and recognizer dispatch in a fixed priority order, producing an ordered
//! token stream or a located lexical error.
//!
//! Dispatch takes the first recognizer, in priority order, whose token
//! advances the cursor — not the longest match across recognizers.  A
//! recognizer answering with an empty match does not advance and so does
//! not win; when nothing advances, the pass aborts with the offending
//! offset, row and column rather than falling through silently.

use vstd::prelude::*;
use crate::mlcomment;
use crate::mlcomment::MLComment;
use crate::qident::{QConId, QConSym, QVarId, QVarSym};
use crate::regex;
use crate::reserved::{ReservedId, ReservedOp};
use crate::reused;
use crate::token::{spec_span_width, Token, TokenType};

verus! {

/// The single characters emitted directly as `Special` tokens, without a
/// recognizer: `| , ; [ ] ` { }`.
pub open spec fn is_special(c: char) -> bool {
    ||| c == '|'
    ||| c == ','
    ||| c == ';'
    ||| c == '['
    ||| c == ']'
    ||| c == '`'
    ||| c == '{'
    ||| c == '}'
}

/// Exec check for [`is_special`].
pub fn special(c: char) -> (r: bool)
    ensures
        r == is_special(c),
{
    c == '|' || c == ',' || c == ';' || c == '[' || c == ']' || c == '`' || c == '{' || c == '}'
}

/// A token as the driver's model records it: its offset in the buffer, its
/// kind, and its span entries.
pub type SpecTok = (int, TokenType, Seq<u16>);

/// What a pattern lexeme contributes at position `at`: its token kind,
/// span, and end position when its anchored, unfiltered match exists there.
pub open spec fn regex_step<L: regex::RegexLexeme>(s: Seq<char>, at: int) -> Option<
    (TokenType, Seq<u16>, int),
> {
    match regex::spec_raw_match_from::<L>(s, at) {
        Ok(l) => if L::spec_needs_filtering() && regex::spec_excluded::<L>(
            s.subrange(at, at + l),
        ) {
            None
        } else {
            Some((L::spec_token_type(), seq![l as u16], at + l))
        },
        Err(_) => None,
    }
}

/// What the comment recognizer contributes at position `at`.
pub open spec fn ml_step(s: Seq<char>, at: int) -> Option<(TokenType, Seq<u16>, int)> {
    match mlcomment::spec_recognize_from(s, at) {
        Ok((sp, end)) => Some((TokenType::MLComment, sp, end)),
        Err(_) => None,
    }
}

/// A contribution the driver accepts: a token that advances the cursor.
pub open spec fn accepted(r: Option<(TokenType, Seq<u16>, int)>, at: int) -> bool {
    r matches Some((tt, sp, end)) && end > at
}

/// The first recognizer, in priority order, whose token advances the
/// cursor at position `at`.
pub open spec fn spec_dispatch(s: Seq<char>, at: int) -> Option<(TokenType, Seq<u16>, int)> {
    if accepted(ml_step(s, at), at) {
        ml_step(s, at)
    } else if accepted(regex_step::<ReservedId>(s, at), at) {
        regex_step::<ReservedId>(s, at)
    } else if accepted(regex_step::<ReservedOp>(s, at), at) {
        regex_step::<ReservedOp>(s, at)
    } else if accepted(regex_step::<QConId>(s, at), at) {
        regex_step::<QConId>(s, at)
    } else if accepted(regex_step::<QVarId>(s, at), at) {
        regex_step::<QVarId>(s, at)
    } else if accepted(regex_step::<QVarSym>(s, at), at) {
        regex_step::<QVarSym>(s, at)
    } else if accepted(regex_step::<QConSym>(s, at), at) {
        regex_step::<QConSym>(s, at)
    } else {
        None
    }
}

/// What a pattern lexeme's accepted contribution guarantees: the cursor
/// moves forward but stays inside the buffer.
proof fn lemma_regex_step_bounds<L: regex::RegexLexeme>(s: Seq<char>, at: int)
    requires
        0 <= at <= s.len(),
    ensures
        regex_step::<L>(s, at) matches Some((tt, sp, end)) ==> at <= end <= s.len(),
{
    regex::lemma_first_match_pos::<L>(s, at);
    if regex::spec_raw_match_from::<L>(s, at) matches Ok(l) {
        L::lemma_match_within_line(s, at);
    }
}

/// An accepted dispatch moves the cursor forward but keeps it inside the
/// buffer.
pub proof fn lemma_dispatch_bounds(s: Seq<char>, at: int)
    requires
        0 <= at <= s.len(),
    ensures
        spec_dispatch(s, at) matches Some((tt, sp, end)) ==> at < end <= s.len(),
{
    mlcomment::lemma_scan_bounds(s, at, mlcomment::MLCommentState::Initial, 0, 0, Seq::empty());
    lemma_regex_step_bounds::<ReservedId>(s, at);
    lemma_regex_step_bounds::<ReservedOp>(s, at);
    lemma_regex_step_bounds::<QConId>(s, at);
    lemma_regex_step_bounds::<QVarId>(s, at);
    lemma_regex_step_bounds::<QVarSym>(s, at);
    lemma_regex_step_bounds::<QConSym>(s, at);
}

/// How a whole pass can fail.
#[derive(Clone, Copy, Debug, PartialEq, Eq, Structural)]
pub enum LexErrorKind {
    /// A character outside the ASCII range stands at the offset.
    NonAsciiInput,
    /// No recognizer advances the cursor at the offset.
    NoRecognizerMatched,
}

/// A located failure of the whole pass.
#[derive(Clone, Copy, Debug, PartialEq, Eq, Structural)]
pub struct LexicalError {
    pub kind: LexErrorKind,
    pub offset: usize,
    pub row: usize,
    pub col: usize,
}

/// The number of line breaks in `s` before position `o`.
pub open spec fn spec_row(s: Seq<char>, o: int) -> int
    decreases o,
{
    if o <= 0 {
        0
    } else {
        spec_row(s, o - 1) + if s[o - 1] == '\n' {
            1int
        } else {
            0int
        }
    }
}

/// The column of position `o` in `s`: characters since the line break
/// before it.
pub open spec fn spec_col(s: Seq<char>, o: int) -> int
    decreases o,
{
    if o <= 0 {
        0
    } else if s[o - 1] == '\n' {
        0
    } else {
        spec_col(s, o - 1) + 1
    }
}

/// Computes the row and column of position `offset`.
pub fn locate(input: &str, offset: usize) -> (rc: (usize, usize))
    requires
        offset <= input@.len(),
    ensures
        rc.0 == spec_row(input@, offset as int),
        rc.1 == spec_col(input@, offset as int),
{
    let mut row: usize = 0;
    let mut col: usize = 0;
    let mut k: usize = 0;
    while k < offset
        invariant
            0 <= k <= offset <= input@.len(),
            row == spec_row(input@, k as int),
            col == spec_col(input@, k as int),
            row <= k,
            col <= k,
        decreases offset - k,
    {
        if input.get_char(k) == '\n' {
            row += 1;
            col = 0;
        } else {
            col += 1;
        }
        k += 1;
    }
    (row, col)
}

/// The exact outcome of driving the whole buffer from position `at`: the
/// stream of located tokens, or the kind and offset of the failure.
pub open spec fn spec_drive(s: Seq<char>, at: int) -> Result<Seq<SpecTok>, (LexErrorKind, int)>
    decreases s.len() - at,
{
    if at < 0 || at >= s.len() {
        Ok(Seq::empty())
    } else if !crate::ascii::spec_is_ascii(s[at]) {
        Err((LexErrorKind::NonAsciiInput, at))
    } else if reused::is_whitechar(s[at]) {
        spec_drive(s, at + 1)
    } else if is_special(s[at]) && !(s[at] == '{' && at + 1 < s.len() && s[at + 1] == '-') {
        match spec_drive(s, at + 1) {
            Ok(rest) => Ok(seq![(at, TokenType::Special, seq![1u16])] + rest),
            Err(e) => Err(e),
        }
    } else {
        match spec_dispatch(s, at) {
            Some((tt, sp, end)) => {
                proof {
                    lemma_dispatch_bounds(s, at);
                }
                match spec_drive(s, end) {
                    Ok(rest) => Ok(seq![(at, tt, sp)] + rest),
                    Err(e) => Err(e),
                }
            },
            None => Err((LexErrorKind::NoRecognizerMatched, at)),
        }
    }
}

/// Only whitespace stands at the positions `i <= k < j` of `s`.
pub open spec fn all_white(s: Seq<char>, i: int, j: int) -> bool {
    forall|k: int| i <= k < j ==> reused::is_whitechar(s[k])
}

/// The token list tiles the buffer from position `from` on: tokens stand
/// in order, each covering exactly the width of its span, with nothing but
/// whitespace between them and after the last one.  Concatenating the
/// covered substrings and the skipped whitespace, in order, therefore
/// reconstructs the buffer exactly.
pub open spec fn tiles(s: Seq<char>, from: int, ts: Seq<SpecTok>) -> bool
    decreases ts.len(),
{
    if ts.len() == 0 {
        all_white(s, from, s.len() as int)
    } else {
        let (o, tt, sp) = ts[0];
        &&& from <= o
        &&& all_white(s, from, o)
        &&& o + spec_span_width(sp) <= s.len()
        &&& tiles(s, o + spec_span_width(sp), ts.drop_first())
    }
}

/// A tiling still tiles from an earlier position when only whitespace
/// stands in between.
pub proof fn lemma_tiles_white_prefix(s: Seq<char>, i: int, j: int, ts: Seq<SpecTok>)
    requires
        i <= j,
        all_white(s, i, j),
        tiles(s, j, ts),
    ensures
        tiles(s, i, ts),
{
    if ts.len() == 0 {
        assert forall|k: int| i <= k < s.len() implies reused::is_whitechar(s[k]) by {
            if k >= j {
                assert(all_white(s, j, s.len() as int));
            }
        }
    } else {
        let (o, tt, sp) = ts[0];
        assert forall|k: int| i <= k < o implies reused::is_whitechar(s[k]) by {
            if k >= j {
                assert(all_white(s, j, o));
            }
        }
    }
}

/// What a pattern lexeme's accepted contribution covers: exactly the width
/// of its span.
proof fn lemma_regex_step_width<L: regex::RegexLexeme>(s: Seq<char>, at: int)
    requires
        reused::lines_fit(s),
        0 <= at <= s.len(),
    ensures
        regex_step::<L>(s, at) matches Some((tt, sp, end)) ==> spec_span_width(sp) == end - at,
{
    regex::lemma_first_match_pos::<L>(s, at);
    match regex::spec_raw_match_from::<L>(s, at) {
        Ok(l) => {
            L::lemma_match_within_line(s, at);
            assert(reused::no_newlines(s, at, at + l));
            assert(l <= 0xFFFF);
            assert(spec_span_width(seq![l as u16]) == l);
        },
        Err(_) => {},
    }
}

/// An accepted dispatch covers exactly the width of its span, and stays
/// inside the buffer.
pub proof fn lemma_dispatch_width(s: Seq<char>, at: int)
    requires
        reused::lines_fit(s),
        0 <= at <= s.len(),
    ensures
        spec_dispatch(s, at) matches Some((tt, sp, end)) ==> at < end <= s.len()
            && spec_span_width(sp) == end - at,
{
    lemma_dispatch_bounds(s, at);
    mlcomment::lemma_scan_width(s, at, mlcomment::MLCommentState::Initial, 0, 0, Seq::empty());
    crate::token::lemma_span_width_push(Seq::empty(), 0u16);
    lemma_regex_step_width::<ReservedId>(s, at);
    lemma_regex_step_width::<ReservedOp>(s, at);
    lemma_regex_step_width::<QConId>(s, at);
    lemma_regex_step_width::<QVarId>(s, at);
    lemma_regex_step_width::<QVarSym>(s, at);
    lemma_regex_step_width::<QConSym>(s, at);
}

/// Round trip: the token stream of a fully tokenized buffer tiles it.  In
/// order, each token covers exactly `spec_span_width` of its span's
/// characters, and everything between and after the tokens is whitespace,
/// so concatenating the covered substrings with the skipped whitespace
/// reconstructs the buffer exactly.
pub proof fn lemma_round_trip(s: Seq<char>, at: int)
    requires
        reused::lines_fit(s),
        0 <= at <= s.len(),
        spec_drive(s, at) is Ok,
    ensures
        tiles(s, at, spec_drive(s, at)->Ok_0),
    decreases s.len() - at,
{
    if at < s.len() {
        if reused::is_whitechar(s[at]) {
            lemma_round_trip(s, at + 1);
            lemma_tiles_white_prefix(s, at, at + 1, spec_drive(s, at + 1)->Ok_0);
        } else if is_special(s[at]) && !(s[at] == '{' && at + 1 < s.len() && s[at + 1] == '-') {
            let rest = spec_drive(s, at + 1)->Ok_0;
            lemma_round_trip(s, at + 1);
            let entry: SpecTok = (at, TokenType::Special, seq![1u16]);
            assert((seq![entry] + rest).drop_first() =~= rest);
            assert(spec_span_width(seq![1u16]) == 1);
        } else {
            let (tt, sp, end) = spec_dispatch(s, at)->Some_0;
            lemma_dispatch_width(s, at);
            let rest = spec_drive(s, end)->Ok_0;
            lemma_round_trip(s, end);
            let entry: SpecTok = (at, tt, sp);
            assert((seq![entry] + rest).drop_first() =~= rest);
        }
    }
}

/// The executable stream `r` realizes the modeled one `m`: the same
/// failure, located, or tokens of the modeled kinds and spans in order.
pub open spec fn drive_result_matches(
    r: Result<Vec<Token>, LexicalError>,
    m: Result<Seq<SpecTok>, (LexErrorKind, int)>,
    s: Seq<char>,
) -> bool {
    match (r, m) {
        (Ok(ts), Ok(ms)) => ts@.len() == ms.len() && (forall|k: int|
            0 <= k < ms.len() ==> ts@[k].token_type == ms[k].1 && ts@[k].span@ == ms[k].2),
        (Err(e), Err((kind, off))) => e.kind == kind && e.offset == off && e.row == spec_row(
            s,
            off,
        ) && e.col == spec_col(s, off),
        _ => false,
    }
}

/// Tries the recognizers at position `at` in priority order and hands back
/// the first token that advances the cursor, with its end position.
pub fn try_dispatch(input: &str, at: usize) -> (r: Option<(Token, usize)>)
    requires
        reused::lines_fit(input@),
        at <= input@.len(),
    ensures
        match (r, spec_dispatch(input@, at as int)) {
            (Some((t, end)), Some((tt, sp, e))) => t.token_type == tt && t.span@ == sp && end == e
                && at < end <= input@.len(),
            (None, None) => true,
            _ => false,
        },
{
    match MLComment::recognize_from(input, at) {
        Ok((t, end)) => {
            return Some((t, end));
        },
        Err(_) => {},
    }
    match regex::recognize_from::<ReservedId>(input, at) {
        Ok((t, end)) => {
            if end > at {
                return Some((t, end));
            }
        },
        Err(_) => {},
    }
    match regex::recognize_from::<ReservedOp>(input, at) {
        Ok((t, end)) => {
            if end > at {
                return Some((t, end));
            }
        },
        Err(_) => {},
    }
    match regex::recognize_from::<QConId>(input, at) {
        Ok((t, end)) => {
            if end > at {
                return Some((t, end));
            }
        },
        Err(_) => {},
    }
    match regex::recognize_from::<QVarId>(input, at) {
        Ok((t, end)) => {
            if end > at {
                return Some((t, end));
            }
        },
        Err(_) => {},
    }
    match regex::recognize_from::<QVarSym>(input, at) {
        Ok((t, end)) => {
            if end > at {
                return Some((t, end));
            }
        },
        Err(_) => {},
    }
    match regex::recognize_from::<QConSym>(input, at) {
        Ok((t, end)) => {
            if end > at {
                return Some((t, end));
            }
        },
        Err(_) => {},
    }
    None
}

/// Generates the token stream of a whole buffer.
///
/// The loop skips whitespace, emits one-column `Special` tokens for the
/// single-character specials (except a `{` that opens a comment), and
/// otherwise dispatches to the recognizers.  It aborts with a located
/// error on a non-ASCII character or when no recognizer advances.
pub fn gen_hs_token_stream(string_view: &str) -> (r: Result<Vec<Token>, LexicalError>)
    requires
        reused::lines_fit(string_view@),
    ensures
        drive_result_matches(r, spec_drive(string_view@, 0), string_view@),
{
    let n = string_view.unicode_len();
    let mut token_stream: Vec<Token> = Vec::new();
    let mut buffer_offset: usize = 0;
    let ghost mut done: Seq<SpecTok> = Seq::empty();
    while buffer_offset < n
        invariant
            reused::lines_fit(string_view@),
            0 <= buffer_offset <= n,
            n == string_view@.len(),
            token_stream@.len() == done.len(),
            forall|k: int|
                0 <= k < done.len() ==> token_stream@[k].token_type == done[k].1
                    && token_stream@[k].span@ == done[k].2,
            spec_drive(string_view@, 0) == match spec_drive(string_view@, buffer_offset as int) {
                Ok(rest) => Ok::<Seq<SpecTok>, (LexErrorKind, int)>(done + rest),
                Err(e) => Err::<Seq<SpecTok>, (LexErrorKind, int)>(e),
            },
        decreases n - buffer_offset,
    {
        let c = string_view.get_char(buffer_offset);
        if c as u32 > 127 {
            let (row, col) = locate(string_view, buffer_offset);
            return Err(
                LexicalError {
                    kind: LexErrorKind::NonAsciiInput,
                    offset: buffer_offset,
                    row,
                    col,
                },
            );
        }
        let opens_comment = c == '{' && buffer_offset + 1 < n && string_view.get_char(
            buffer_offset + 1,
        ) == '-';
        if reused::whitechar(c) {
            buffer_offset += 1;
        } else if special(c) && !opens_comment {
            let t = Token { span: vec![1], token_type: TokenType::Special };
            proof {
                let entry: SpecTok = (buffer_offset as int, TokenType::Special, seq![1u16]);
                assert(t.span@ =~= seq![1u16]);
                match spec_drive(string_view@, buffer_offset + 1) {
                    Ok(rest) => {
                        assert(done + (seq![entry] + rest) =~= done.push(entry) + rest);
                    },
                    Err(_) => {},
                }
                done = done.push(entry);
            }
            token_stream.push(t);
            buffer_offset += 1;
        } else {
            match try_dispatch(string_view, buffer_offset) {
                Some((t, end)) => {
                    proof {
                        let m = spec_dispatch(string_view@, buffer_offset as int);
                        let (tt, sp, e) = m->Some_0;
                        let entry: SpecTok = (buffer_offset as int, tt, sp);
                        match spec_drive(string_view@, e) {
                            Ok(rest) => {
                                assert(done + (seq![entry] + rest) =~= done.push(entry) + rest);
                            },
                            Err(_) => {},
                        }
                        done = done.push(entry);
                    }
                    token_stream.push(t);
                    buffer_offset = end;
                },
                None => {
                    let (row, col) = locate(string_view, buffer_offset);
                    return Err(
                        LexicalError {
                            kind: LexErrorKind::NoRecognizerMatched,
                            offset: buffer_offset,
                            row,
                            col,
                        },
                    );
                },
            }
        }
    }
    proof {
        assert(done + Seq::<SpecTok>::empty() =~= done);
    }
    Ok(token_stream)
}

} // verus!
