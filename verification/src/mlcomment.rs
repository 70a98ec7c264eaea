//! The pushdown recognizer for balanced, arbitrarily nested block comments
//! (`{- ... -}`), producing a multi-line-aware span.

use vstd::prelude::*;
use crate::ascii;
use crate::dfa;
use crate::dfa::DFA;
use crate::lexeme;
use crate::pda;
use crate::reused;
use crate::token::{Token, TokenType};

verus! {

/// The control states of the comment automaton.
#[derive(Clone, Copy, Debug, PartialEq, Eq, Structural)]
pub enum MLCommentState {
    /// Nothing consumed yet.
    Initial,
    /// Consumed the `{` that may open a comment.
    SawOpeningBracket,
    /// Inside the comment body.
    SawOpenComm,
    /// Inside the body, just consumed a `-` that may start a closer.
    SawDashAfterOpenComm,
    /// Inside the body, just consumed a `{` that may start a nested opener.
    SawOpeningBracketInner,
    /// Accepted: the nesting depth returned to zero.  Absorbing.
    Final,
    /// Rejected: the text does not begin a comment at all.  Absorbing.
    FailedMatch,
}

/// One transition of the comment automaton: the next control state and
/// nesting depth for a configuration and an input character.
pub open spec fn step(st: MLCommentState, depth: nat, c: char) -> (MLCommentState, nat) {
    match st {
        MLCommentState::Final => (MLCommentState::Final, depth),
        MLCommentState::FailedMatch => (MLCommentState::FailedMatch, depth),
        MLCommentState::Initial => if c == '{' {
            (MLCommentState::SawOpeningBracket, depth)
        } else {
            (MLCommentState::FailedMatch, depth)
        },
        MLCommentState::SawOpeningBracket => if c == '-' {
            (MLCommentState::SawOpenComm, depth + 1)
        } else {
            (MLCommentState::FailedMatch, depth)
        },
        MLCommentState::SawOpenComm => if c == '-' {
            (MLCommentState::SawDashAfterOpenComm, depth)
        } else if c == '{' {
            (MLCommentState::SawOpeningBracketInner, depth)
        } else {
            (MLCommentState::SawOpenComm, depth)
        },
        MLCommentState::SawDashAfterOpenComm => if c == '}' {
            if depth <= 1 {
                (MLCommentState::Final, 0)
            } else {
                (MLCommentState::SawOpenComm, (depth - 1) as nat)
            }
        } else {
            (MLCommentState::SawOpenComm, depth)
        },
        MLCommentState::SawOpeningBracketInner => if c == '-' {
            (MLCommentState::SawOpenComm, depth + 1)
        } else {
            (MLCommentState::SawOpenComm, depth)
        },
    }
}

/// The multiline-comment automaton: a control state plus the nesting
/// depth of unmatched openers.
pub struct MLComment {
    pub state: MLCommentState,
    pub stack: usize,
}

impl MLComment {
    /// A fresh automaton, created per recognition attempt.
    pub fn new() -> (r: Self)
        ensures
            r.state == MLCommentState::Initial,
            r.stack == 0,
    {
        Self { state: MLCommentState::Initial, stack: 0 }
    }
}

impl dfa::DFA for MLComment {
    type State = MLCommentState;

    type Input = ascii::ASCIIChar;

    open spec fn spec_can_advance(&self, input: ascii::ASCIIChar) -> bool {
        self.stack < usize::MAX
    }

    open spec fn spec_step(self, input: ascii::ASCIIChar) -> Self {
        let (st, depth) = step(self.state, self.stack as nat, input.spec_char());
        MLComment { state: st, stack: depth as usize }
    }

    open spec fn spec_in_final(&self) -> bool {
        self.state == MLCommentState::Final
    }

    open spec fn spec_in_fail(&self) -> bool {
        self.state == MLCommentState::FailedMatch
    }

    fn advance(&mut self, input: ascii::ASCIIChar) {
        let c = input.get_char();
        match self.state {
            MLCommentState::Final => {},
            MLCommentState::FailedMatch => {},
            MLCommentState::Initial => {
                if c == '{' {
                    self.state = MLCommentState::SawOpeningBracket;
                } else {
                    self.state = MLCommentState::FailedMatch;
                }
            },
            MLCommentState::SawOpeningBracket => {
                if c == '-' {
                    self.state = MLCommentState::SawOpenComm;
                    self.stack += 1;
                } else {
                    self.state = MLCommentState::FailedMatch;
                }
            },
            MLCommentState::SawOpenComm => {
                if c == '-' {
                    self.state = MLCommentState::SawDashAfterOpenComm;
                } else if c == '{' {
                    self.state = MLCommentState::SawOpeningBracketInner;
                }
            },
            MLCommentState::SawDashAfterOpenComm => {
                if c == '}' {
                    if self.stack <= 1 {
                        self.stack = 0;
                        self.state = MLCommentState::Final;
                    } else {
                        self.stack -= 1;
                        self.state = MLCommentState::SawOpenComm;
                    }
                } else {
                    self.state = MLCommentState::SawOpenComm;
                }
            },
            MLCommentState::SawOpeningBracketInner => {
                if c == '-' {
                    self.stack += 1;
                }
                self.state = MLCommentState::SawOpenComm;
            },
        }
    }

    fn in_final_state(&self) -> (r: bool) {
        match self.state {
            MLCommentState::Final => true,
            _ => false,
        }
    }

    fn in_fail_state(&self) -> (r: bool) {
        match self.state {
            MLCommentState::FailedMatch => true,
            _ => false,
        }
    }
}

impl pda::PDA for MLComment {
    type Stack = usize;
}

/// The exact outcome of running the comment automaton over `s` from
/// position `i`, starting in configuration (`st`, `depth`), with `cols`
/// columns already counted on the current line and `acc` the widths of the
/// lines already completed.
///
/// On acceptance it yields the span entries and the position just past the
/// closing `}`; reaching the failure state and exhausting the input both
/// yield the same no-match error, and a non-ASCII character is the fatal
/// input error.
pub open spec fn spec_scan(
    s: Seq<char>,
    i: int,
    st: MLCommentState,
    depth: nat,
    cols: int,
    acc: Seq<u16>,
) -> Result<(Seq<u16>, int), lexeme::Error>
    decreases s.len() - i,
{
    if i < 0 || i >= s.len() {
        Err(lexeme::Error::Automata(dfa::DFALexemeErr::NoMatch))
    } else if !ascii::spec_is_ascii(s[i]) {
        Err(lexeme::Error::NonAsciiFound)
    } else {
        let cols2 = if s[i] == '\n' {
            0
        } else {
            cols + 1
        };
        let acc2 = if s[i] == '\n' {
            acc.push(cols as u16)
        } else {
            acc
        };
        let (st2, depth2) = step(st, depth, s[i]);
        if st2 == MLCommentState::Final {
            Ok((acc2.push(cols2 as u16), i + 1))
        } else if st2 == MLCommentState::FailedMatch {
            Err(lexeme::Error::Automata(dfa::DFALexemeErr::NoMatch))
        } else {
            spec_scan(s, i + 1, st2, depth2, cols2, acc2)
        }
    }
}

/// An accepting scan ends past its starting position and within the input.
pub proof fn lemma_scan_bounds(
    s: Seq<char>,
    i: int,
    st: MLCommentState,
    depth: nat,
    cols: int,
    acc: Seq<u16>,
)
    ensures
        spec_scan(s, i, st, depth, cols, acc) matches Ok((sp, end)) ==> i < end <= s.len(),
    decreases s.len() - i,
{
    if 0 <= i < s.len() && ascii::spec_is_ascii(s[i]) {
        let cols2 = if s[i] == '\n' {
            0
        } else {
            cols + 1
        };
        let acc2 = if s[i] == '\n' {
            acc.push(cols as u16)
        } else {
            acc
        };
        let (st2, depth2) = step(st, depth, s[i]);
        if st2 != MLCommentState::Final && st2 != MLCommentState::FailedMatch {
            lemma_scan_bounds(s, i + 1, st2, depth2, cols2, acc2);
        }
    }
}

/// An accepting scan's span covers exactly the characters it consumed:
/// its width grows from the width of the configuration it started in by
/// one column or line break per character.
pub proof fn lemma_scan_width(
    s: Seq<char>,
    i: int,
    st: MLCommentState,
    depth: nat,
    cols: int,
    acc: Seq<u16>,
)
    requires
        reused::lines_fit(s),
        0 <= i <= s.len(),
        0 <= cols <= 0xFFFF,
        0 <= i - cols,
        reused::no_newlines(s, i - cols, i),
    ensures
        spec_scan(s, i, st, depth, cols, acc) matches Ok((sp, end)) ==> crate::token::spec_span_width(
            sp,
        ) == crate::token::spec_span_width(acc.push(cols as u16)) + (end - i),
    decreases s.len() - i,
{
    if 0 <= i < s.len() && ascii::spec_is_ascii(s[i]) {
        let c = s[i];
        let cols2 = if c == '\n' {
            0
        } else {
            cols + 1
        };
        let acc2 = if c == '\n' {
            acc.push(cols as u16)
        } else {
            acc
        };
        let (st2, depth2) = step(st, depth, c);
        if c != '\n' {
            assert(reused::no_newlines(s, i - cols, i + 1));
            crate::token::lemma_span_width_push(acc, cols as u16);
            crate::token::lemma_span_width_push(acc, cols2 as u16);
        } else {
            crate::token::lemma_span_width_push(acc, cols as u16);
            crate::token::lemma_span_width_push(acc2, 0u16);
        }
        if st2 != MLCommentState::Final && st2 != MLCommentState::FailedMatch {
            lemma_scan_width(s, i + 1, st2, depth2, cols2, acc2);
        }
    }
}

/// The outcome of probing `s` for a comment that starts at position `at`.
pub open spec fn spec_recognize_from(s: Seq<char>, at: int) -> Result<(Seq<u16>, int), lexeme::Error> {
    spec_scan(s, at, MLCommentState::Initial, 0, 0, Seq::empty())
}

/// The executable result `r` realizes the positioned outcome `m`.
pub open spec fn from_result_matches(
    r: Result<(Token, usize), lexeme::Error>,
    m: Result<(Seq<u16>, int), lexeme::Error>,
) -> bool {
    match (r, m) {
        (Ok((t, end)), Ok((sp, e))) => t.token_type == TokenType::MLComment && t.span@ == sp
            && end == e,
        (Err(a), Err(b)) => a == b,
        _ => false,
    }
}

impl MLComment {
    /// Feeds characters from position `at` of `input` to a fresh automaton,
    /// tracking per-line column counts, until it accepts, rejects, or runs
    /// out of input.  On acceptance, returns the token and the position
    /// just past it.
    pub fn recognize_from(input: &str, at: usize) -> (r: Result<(Token, usize), lexeme::Error>)
        requires
            reused::lines_fit(input@),
            at <= input@.len(),
        ensures
            from_result_matches(r, spec_recognize_from(input@, at as int)),
            r matches Ok((t, end)) ==> at < end <= input@.len(),
    {
        let n = input.unicode_len();
        let mut rec = MLComment::new();
        let mut cols: u16 = 0;
        let mut lines_span: Vec<u16> = Vec::new();
        let mut i = at;
        let ghost mut line_start: int = at as int;
        while i < n
            invariant
                reused::lines_fit(input@),
                at <= i <= n,
                n == input@.len(),
                rec.stack <= i - at,
                rec.state != MLCommentState::Final,
                rec.state != MLCommentState::FailedMatch,
                at <= line_start <= i,
                cols == i - line_start,
                reused::no_newlines(input@, line_start, i as int),
                spec_recognize_from(input@, at as int) == spec_scan(
                    input@,
                    i as int,
                    rec.state,
                    rec.stack as nat,
                    cols as int,
                    lines_span@,
                ),
            decreases n - i,
        {
            let c = input.get_char(i);
            let ascii_char = match ascii::ASCIIChar::new(c) {
                Some(a) => a,
                None => {
                    return Err(lexeme::Error::NonAsciiFound);
                },
            };
            if c == '\n' {
                lines_span.push(cols);
                cols = 0;
                proof {
                    line_start = i + 1;
                }
            } else {
                proof {
                    assert(reused::no_newlines(input@, line_start, i + 1));
                }
                cols += 1;
            }
            rec.advance(ascii_char);
            if rec.in_final_state() {
                lines_span.push(cols);
                return Ok(
                    (Token { token_type: TokenType::MLComment, span: lines_span }, i + 1),
                );
            } else if rec.in_fail_state() {
                return Err(lexeme::Error::Automata(dfa::DFALexemeErr::NoMatch));
            }
            i += 1;
        }
        Err(lexeme::Error::Automata(dfa::DFALexemeErr::NoMatch))
    }
}

// ---- What the recognizer accepts, stated structurally ----

/// Where the comment body that starts at position `i` of `s`, already `d`
/// levels deep, is closed: the position just past the `-}` that returns
/// the depth to zero.  Delimiters are paired greedily two characters at a
/// time, exactly as the automaton consumes them: after a `-` the next
/// character is consumed with it and only `}` closes; after a `{` the next
/// character is consumed with it and only `-` opens a nested comment.
pub open spec fn comment_close(s: Seq<char>, i: int, d: nat) -> Option<int>
    decreases s.len() - i,
{
    if i < 0 || i >= s.len() {
        None
    } else if s[i] == '-' {
        if i + 1 < s.len() {
            if s[i + 1] == '}' {
                if d <= 1 {
                    Some(i + 2)
                } else {
                    comment_close(s, i + 2, (d - 1) as nat)
                }
            } else {
                comment_close(s, i + 2, d)
            }
        } else {
            None
        }
    } else if s[i] == '{' {
        if i + 1 < s.len() {
            if s[i + 1] == '-' {
                comment_close(s, i + 2, d + 1)
            } else {
                comment_close(s, i + 2, d)
            }
        } else {
            None
        }
    } else {
        comment_close(s, i + 1, d)
    }
}

/// Inside a comment body of ASCII text, the automaton accepts exactly
/// where the greedy delimiter pairing returns the nesting depth to zero,
/// and nowhere when it never does.
pub proof fn lemma_scan_finds_close(s: Seq<char>, i: int, d: nat, cols: int, acc: Seq<u16>)
    requires
        0 <= i <= s.len(),
        1 <= d,
        forall|k: int| i <= k < s.len() ==> ascii::spec_is_ascii(s[k]),
    ensures
        match comment_close(s, i, d) {
            Some(end) => spec_scan(s, i, MLCommentState::SawOpenComm, d, cols, acc) matches Ok(
                (sp, e),
            ) && e == end,
            None => spec_scan(s, i, MLCommentState::SawOpenComm, d, cols, acc) is Err,
        },
    decreases s.len() - i,
{
    if 0 <= i < s.len() {
        let c = s[i];
        assert(ascii::spec_is_ascii(s[i]));
        let cols2 = if c == '\n' {
            0
        } else {
            cols + 1
        };
        let acc2 = if c == '\n' {
            acc.push(cols as u16)
        } else {
            acc
        };
        let st1 = if c == '-' {
            MLCommentState::SawDashAfterOpenComm
        } else if c == '{' {
            MLCommentState::SawOpeningBracketInner
        } else {
            MLCommentState::SawOpenComm
        };
        assert(spec_scan(s, i, MLCommentState::SawOpenComm, d, cols, acc) == spec_scan(
            s,
            i + 1,
            st1,
            d,
            cols2,
            acc2,
        ));
        if c == '-' || c == '{' {
            if i + 1 < s.len() {
                let c2 = s[i + 1];
                assert(ascii::spec_is_ascii(s[i + 1]));
                let cols3 = if c2 == '\n' {
                    0
                } else {
                    cols2 + 1
                };
                let acc3 = if c2 == '\n' {
                    acc2.push(cols2 as u16)
                } else {
                    acc2
                };
                if c == '-' && c2 == '}' {
                    if d > 1 {
                        assert(spec_scan(s, i + 1, st1, d, cols2, acc2) == spec_scan(
                            s,
                            i + 2,
                            MLCommentState::SawOpenComm,
                            (d - 1) as nat,
                            cols3,
                            acc3,
                        ));
                        lemma_scan_finds_close(s, i + 2, (d - 1) as nat, cols3, acc3);
                    }
                } else {
                    let d2 = if c == '{' && c2 == '-' {
                        d + 1
                    } else {
                        d
                    };
                    assert(spec_scan(s, i + 1, st1, d, cols2, acc2) == spec_scan(
                        s,
                        i + 2,
                        MLCommentState::SawOpenComm,
                        d2,
                        cols3,
                        acc3,
                    ));
                    lemma_scan_finds_close(s, i + 2, d2, cols3, acc3);
                }
            } else {
                assert(spec_scan(s, i + 1, st1, d, cols2, acc2) is Err);
            }
        } else {
            lemma_scan_finds_close(s, i + 1, d, cols2, acc2);
        }
    }
}

/// An accepted comment's span covers exactly the consumed prefix: its
/// width in characters equals the distance from the probe point to the
/// end of the match.  Together with [`lemma_balanced_comment_recognized`]
/// this says a balanced comment is matched over its entire outer extent.
pub proof fn lemma_recognized_width(s: Seq<char>, at: int)
    requires
        reused::lines_fit(s),
        0 <= at <= s.len(),
    ensures
        spec_recognize_from(s, at) matches Ok((sp, end)) ==> crate::token::spec_span_width(sp)
            == end - at,
{
    lemma_scan_width(s, at, MLCommentState::Initial, 0, 0, Seq::empty());
    crate::token::lemma_span_width_push(Seq::empty(), 0u16);
}

/// Balanced nested comments are recognized: when the greedy pairing of an
/// ASCII buffer that opens with `{-` returns the nesting depth to zero
/// just before position `n`, the recognizer accepts and consumes exactly
/// the outer comment `s[0..n]`, whatever follows it.
pub proof fn lemma_balanced_comment_recognized(s: Seq<char>, n: int)
    requires
        2 <= n <= s.len(),
        s[0] == '{',
        s[1] == '-',
        comment_close(s, 2, 1) == Some(n),
        forall|k: int| 0 <= k < s.len() ==> ascii::spec_is_ascii(s[k]),
    ensures
        spec_recognize_from(s, 0) matches Ok((sp, end)) && end == n,
{
    assert(spec_scan(s, 0, MLCommentState::Initial, 0, 0, Seq::empty()) == spec_scan(
        s,
        1,
        MLCommentState::SawOpeningBracket,
        0,
        1,
        Seq::empty(),
    ));
    assert(spec_scan(s, 1, MLCommentState::SawOpeningBracket, 0, 1, Seq::empty()) == spec_scan(
        s,
        2,
        MLCommentState::SawOpenComm,
        1,
        2,
        Seq::empty(),
    ));
    lemma_scan_finds_close(s, 2, 1, 2, Seq::empty());
}

/// The recognizer accepts only balanced comments: whenever it accepts, the
/// buffer opens with `{-` and the consumed prefix is exactly where the
/// greedy pairing first returns the nesting depth to zero.
pub proof fn lemma_recognized_comment_balanced(s: Seq<char>)
    requires
        forall|k: int| 0 <= k < s.len() ==> ascii::spec_is_ascii(s[k]),
        spec_recognize_from(s, 0) is Ok,
    ensures
        s.len() >= 2,
        s[0] == '{',
        s[1] == '-',
        comment_close(s, 2, 1) == Some(spec_recognize_from(s, 0)->Ok_0.1),
{
    assert(s.len() >= 1);
    assert(s[0] == '{');
    assert(spec_scan(s, 0, MLCommentState::Initial, 0, 0, Seq::empty()) == spec_scan(
        s,
        1,
        MLCommentState::SawOpeningBracket,
        0,
        1,
        Seq::empty(),
    ));
    assert(s.len() >= 2);
    assert(s[1] == '-');
    assert(spec_scan(s, 1, MLCommentState::SawOpeningBracket, 0, 1, Seq::empty()) == spec_scan(
        s,
        2,
        MLCommentState::SawOpenComm,
        1,
        2,
        Seq::empty(),
    ));
    lemma_scan_finds_close(s, 2, 1, 2, Seq::empty());
}

/// The per-line column widths of `t`, continuing a line that already has
/// `cols` columns, after the finished lines `acc`.
pub open spec fn line_widths(t: Seq<char>, cols: int, acc: Seq<u16>) -> Seq<u16>
    decreases t.len(),
{
    if t.len() == 0 {
        acc.push(cols as u16)
    } else if t[0] == '\n' {
        line_widths(t.drop_first(), 0, acc.push(cols as u16))
    } else {
        line_widths(t.drop_first(), cols + 1, acc)
    }
}

/// An accepting scan's span is exactly the per-line column widths of the
/// text it consumed: one entry per line the token touches, the first
/// counting from the token's start, the last counting up to and including
/// its closing `}`.
pub proof fn lemma_scan_span_lines(
    s: Seq<char>,
    i: int,
    st: MLCommentState,
    depth: nat,
    cols: int,
    acc: Seq<u16>,
)
    requires
        0 <= i <= s.len(),
    ensures
        spec_scan(s, i, st, depth, cols, acc) matches Ok((sp, end)) ==> sp == line_widths(
            s.subrange(i, end),
            cols,
            acc,
        ),
    decreases s.len() - i,
{
    if 0 <= i < s.len() && ascii::spec_is_ascii(s[i]) {
        let c = s[i];
        let cols2 = if c == '\n' {
            0
        } else {
            cols + 1
        };
        let acc2 = if c == '\n' {
            acc.push(cols as u16)
        } else {
            acc
        };
        let (st2, depth2) = step(st, depth, c);
        if st2 == MLCommentState::Final {
            let t = s.subrange(i, i + 1);
            assert(t.len() == 1);
            assert(t[0] == c);
            assert(t.drop_first() =~= s.subrange(i + 1, i + 1));
            assert(line_widths(s.subrange(i + 1, i + 1), cols2, acc2) == acc2.push(
                cols2 as u16,
            ));
            assert(line_widths(t, cols, acc) == line_widths(t.drop_first(), cols2, acc2));
        } else if st2 != MLCommentState::FailedMatch {
            lemma_scan_bounds(s, i + 1, st2, depth2, cols2, acc2);
            lemma_scan_span_lines(s, i + 1, st2, depth2, cols2, acc2);
            match spec_scan(s, i + 1, st2, depth2, cols2, acc2) {
                Ok((sp, end)) => {
                    let t = s.subrange(i, end);
                    assert(t.len() == end - i >= 1);
                    assert(t[0] == c);
                    assert(t.drop_first() =~= s.subrange(i + 1, end));
                    assert(line_widths(t, cols, acc) == line_widths(
                        s.subrange(i + 1, end),
                        cols2,
                        acc2,
                    ));
                },
                Err(_) => {},
            }
        }
    }
}

/// Break-free text occupies one line: its widths are the line so far plus
/// its whole length, as a single entry.
pub proof fn lemma_line_widths_no_breaks(t: Seq<char>, cols: int, acc: Seq<u16>)
    requires
        forall|k: int| 0 <= k < t.len() ==> t[k] != '\n',
    ensures
        line_widths(t, cols, acc) == acc.push((cols + t.len()) as u16),
    decreases t.len(),
{
    if t.len() > 0 {
        assert forall|k: int| 0 <= k < t.drop_first().len() implies t.drop_first()[k]
            != '\n' by {
            assert(t.drop_first()[k] == t[k + 1]);
        }
        lemma_line_widths_no_breaks(t.drop_first(), cols + 1, acc);
    }
}

/// A balanced block comment that stays on one line is recognized as
/// exactly one token whose one-element span is the full matched length.
pub proof fn lemma_single_line_balanced_comment(s: Seq<char>, n: int)
    requires
        2 <= n <= s.len(),
        s[0] == '{',
        s[1] == '-',
        comment_close(s, 2, 1) == Some(n),
        forall|k: int| 0 <= k < s.len() ==> ascii::spec_is_ascii(s[k]),
        reused::no_newlines(s, 0, n),
    ensures
        spec_recognize_from(s, 0) == Ok::<(Seq<u16>, int), lexeme::Error>((seq![n as u16], n)),
{
    lemma_balanced_comment_recognized(s, n);
    lemma_scan_span_lines(s, 0, MLCommentState::Initial, 0, 0, Seq::empty());
    let t = s.subrange(0, n);
    assert forall|k: int| 0 <= k < t.len() implies t[k] != '\n' by {
        assert(t[k] == s[k]);
    }
    lemma_line_widths_no_breaks(t, 0, Seq::empty());
    assert(Seq::<u16>::empty().push(n as u16) =~= seq![n as u16]);
}

/// Whether `s` ends in an odd run of dashes.  The closer of a single-line
/// comment pairs with the body's last dash when that run is odd, so such a
/// body is the one shape of plain text the automaton does not accept.
pub open spec fn odd_trailing_dashes(s: Seq<char>) -> bool
    decreases s.len(),
{
    s.len() > 0 && s.last() == '-' && !odd_trailing_dashes(s.drop_last())
}

/// A body character of a plain single-line comment: ASCII, no brace of
/// either kind, no line break.
pub open spec fn plain_char(c: char) -> bool {
    ascii::spec_is_ascii(c) && c != '{' && c != '}' && c != '\n'
}

/// Scanning the remainder of a plain single-line comment body and its
/// closer from inside the comment accepts the whole text.
proof fn lemma_plain_body_scan(s: Seq<char>, mid: Seq<char>, j: int)
    requires
        s == seq!['{', '-'] + mid + seq!['-', '}'],
        0 <= j <= mid.len(),
        forall|p: int| 0 <= p < mid.len() ==> plain_char(#[trigger] mid[p]),
        !odd_trailing_dashes(mid),
    ensures
        spec_scan(
            s,
            2 + j,
            if odd_trailing_dashes(mid.take(j)) {
                MLCommentState::SawDashAfterOpenComm
            } else {
                MLCommentState::SawOpenComm
            },
            1,
            2 + j,
            Seq::empty(),
        ) == Ok::<(Seq<u16>, int), lexeme::Error>(
            (seq![(mid.len() + 4) as u16], mid.len() + 4int),
        ),
    decreases mid.len() - j,
{
    let m = mid.len() as int;
    if j == m {
        assert(mid.take(j) =~= mid);
        assert(s[2 + m] == '-');
        assert(s[3 + m] == '}');
        assert(Seq::<u16>::empty().push((m + 4) as u16) =~= seq![(m + 4) as u16]);
    } else {
        let c = mid[j];
        assert(s[2 + j] == c);
        assert(mid.take(j + 1).drop_last() =~= mid.take(j));
        assert(mid.take(j + 1).last() == c);
        lemma_plain_body_scan(s, mid, j + 1);
    }
}

/// A single well-formed one-line block comment is recognized whole: for
/// any plain body that does not end in an odd dash run, probing
/// `{-body-}` yields exactly one token whose one-element span is the full
/// matched length.
pub proof fn lemma_single_line_comment(mid: Seq<char>)
    requires
        forall|p: int| 0 <= p < mid.len() ==> plain_char(#[trigger] mid[p]),
        !odd_trailing_dashes(mid),
        mid.len() + 4 <= 0xFFFF,
    ensures
        spec_recognize_from(seq!['{', '-'] + mid + seq!['-', '}'], 0) == Ok::<
            (Seq<u16>, int),
            lexeme::Error,
        >((seq![(mid.len() + 4) as u16], mid.len() + 4int)),
{
    let s = seq!['{', '-'] + mid + seq!['-', '}'];
    assert(s[0] == '{');
    assert(s[1] == '-');
    assert(mid.take(0) =~= Seq::<char>::empty());
    assert(!odd_trailing_dashes(mid.take(0)));
    lemma_plain_body_scan(s, mid, 0);
    assert(spec_scan(s, 0, MLCommentState::Initial, 0, 0, Seq::empty()) == spec_scan(
        s,
        1,
        MLCommentState::SawOpeningBracket,
        0,
        1,
        Seq::empty(),
    ));
    assert(spec_scan(s, 1, MLCommentState::SawOpeningBracket, 0, 1, Seq::empty()) == spec_scan(
        s,
        2,
        MLCommentState::SawOpenComm,
        1,
        2,
        Seq::empty(),
    ));
}

impl lexeme::Lexeme for MLComment {
    open spec fn spec_recognize(s: Seq<char>) -> lexeme::SpecOutcome {
        match spec_recognize_from(s, 0) {
            Ok((sp, _)) => Ok((TokenType::MLComment, sp)),
            Err(e) => Err(e),
        }
    }

    fn recognize(input: &str) -> (r: Result<Token, lexeme::Error>) {
        match MLComment::recognize_from(input, 0) {
            Ok((t, _)) => Ok(t),
            Err(e) => Err(e),
        }
    }
}

} // verus!
