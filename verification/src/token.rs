//! The data shape every recognizer produces: a token kind plus a span.

use vstd::prelude::*;

verus! {

/// The closed enumeration of token kinds.
///
/// Besides the kinds a whole token can have, it carries the internal
/// character-class tags (`BigASCII` through `Hexit`) that the composite
/// patterns are built from.
#[derive(Clone, Copy, Debug, PartialEq, Eq, Structural)]
pub enum TokenType {
    Ident,
    MLComment,
    SLComment,
    ReservedId,
    ReservedOp,
    QConId,
    QVarId,
    QVarSym,
    QConSym,
    Special,
    IntegerLiteral,
    FloatLiteral,
    CharLiteral,
    BigASCII,
    LowASCII,
    Digit,
    Octit,
    Hexit,
}

/// A recognized token: its kind and the span it occupies.
///
/// The span is an ordered sequence of per-line column widths, one entry per
/// source line the token touches.  A single-line token has a one-element
/// span; a token crossing N line breaks has N+1 entries, of which the first
/// counts the columns on the starting line and the last counts the columns
/// up to (not including) the character that follows the token.
#[derive(Debug)]
pub struct Token {
    pub span: Vec<u16>,
    pub token_type: TokenType,
}

/// How many characters of the source buffer a span covers: the column
/// widths of its entries plus one line-break character between each pair of
/// adjacent entries.
pub open spec fn spec_span_width(span: Seq<u16>) -> int
    decreases span.len(),
{
    if span.len() == 0 {
        0
    } else if span.len() == 1 {
        span[0] as int
    } else {
        span[0] + 1 + spec_span_width(span.drop_first())
    }
}

/// Widening a span by one entry adds that entry's columns, plus the line
/// break in front of it when the span already has a line.
pub proof fn lemma_span_width_push(a: Seq<u16>, x: u16)
    ensures
        spec_span_width(a.push(x)) == if a.len() == 0 {
            x as int
        } else {
            spec_span_width(a) + 1 + x
        },
    decreases a.len(),
{
    if a.len() > 0 {
        assert(a.push(x).drop_first() =~= a.drop_first().push(x));
        lemma_span_width_push(a.drop_first(), x);
    }
}

impl Token {
    /// Equality of the abstract values: same kind, same span entries.
    pub open spec fn spec_eq(&self, other: &Token) -> bool {
        self.token_type == other.token_type && self.span@ == other.span@
    }
}

impl PartialEq for Token {
    fn eq(&self, other: &Token) -> (r: bool) {
        if self.token_type != other.token_type {
            return false;
        }
        if self.span.len() != other.span.len() {
            return false;
        }
        let n = self.span.len();
        let mut i: usize = 0;
        while i < n
            invariant
                n == self.span@.len(),
                n == other.span@.len(),
                0 <= i <= n,
                forall|j: int| 0 <= j < i ==> self.span@[j] == other.span@[j],
            decreases n - i,
        {
            if self.span[i] != other.span[i] {
                return false;
            }
            i += 1;
        }
        proof {
            assert(self.span@ =~= other.span@);
        }
        true
    }
}

impl vstd::std_specs::cmp::PartialEqSpecImpl for Token {
    open spec fn obeys_eq_spec() -> bool {
        true
    }

    open spec fn eq_spec(&self, other: &Token) -> bool {
        self.spec_eq(other)
    }
}

} // verus!
