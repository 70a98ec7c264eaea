//! The guard every raw character passes before a recognizer sees it.
//!
//! The lexer works on the ASCII subset only: a non-ASCII character is a
//! fatal input error for the whole pass, never a recoverable lexing failure.

use vstd::prelude::*;

verus! {

/// True when the character lies in the ASCII range.
pub open spec fn spec_is_ascii(c: char) -> bool {
    c as u32 <= 127
}

/// A character that is known to lie in the ASCII range.
///
/// A value of this type can only be built through [`ASCIIChar::new`], which
/// rejects everything outside the range, so holding one is proof that the
/// wrapped character is ASCII.
pub struct ASCIIChar {
    character: char,
}

impl ASCIIChar {
    /// The wrapped character, for specifications.
    pub closed spec fn spec_char(&self) -> char {
        self.character
    }

    /// Wraps `character` when it is ASCII and refuses it otherwise.
    pub fn new(character: char) -> (r: Option<Self>)
        ensures
            spec_is_ascii(character) <==> r is Some,
            r matches Some(a) ==> a.spec_char() == character,
    {
        if character as u32 <= 127 {
            Option::Some(Self { character })
        } else {
            Option::None
        }
    }

    /// Hands the validated character back.
    pub fn get_char(&self) -> (c: char)
        ensures
            c == self.spec_char(),
    {
        self.character
    }
}

} // verus!
