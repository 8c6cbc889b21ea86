//! The recognizers of the three keywords `null`, `true` and `false`.
//!
//! Each one is a position in its keyword. A character that matches the letter
//! at the position moves it on; the last letter finishes the keyword. Before
//! the first letter whitespace is passed over. After the last letter, and
//! after a character that does not fit, the position is back at the start.

use vstd::prelude::*;
use crate::error::ErrorKind;
use crate::lexis::{is_whitespace, whitespace};

verus! {

/// The letters of `null`.
pub open spec fn null_word() -> Seq<char> {
    seq!['n', 'u', 'l', 'l']
}

/// The letters of `true`.
pub open spec fn true_word() -> Seq<char> {
    seq!['t', 'r', 'u', 'e']
}

/// The letters of `false`.
pub open spec fn false_word() -> Seq<char> {
    seq!['f', 'a', 'l', 's', 'e']
}

/// What a keyword recognizer answers to `c` when it stands before letter `at`
/// of `word`: `Ok(true)` when `c` is the last letter, `Ok(false)` when it is an
/// earlier letter or whitespace before the first, an error otherwise.
pub open spec fn keyword_result(word: Seq<char>, at: nat, c: char) -> Result<bool, ErrorKind> {
    if at < word.len() && c == word[at as int] {
        Ok(at + 1 == word.len())
    } else if at == 0 && is_whitespace(c) {
        Ok(false)
    } else {
        Err(ErrorKind::InvalidLiteral)
    }
}

/// Where a keyword recognizer stands after `c`: one letter on after a letter
/// that is not the last, at the start in every other case.
pub open spec fn keyword_next(word: Seq<char>, at: nat, c: char) -> nat {
    if at + 1 < word.len() && c == word[at as int] {
        at + 1
    } else {
        0
    }
}

/// The recognizer of `null`; a variant names the letter that comes next.
#[allow(non_camel_case_types)]
#[derive(Clone, Copy, Debug, PartialEq, Eq, Structural)]
pub enum NullMode {
    n,
    u,
    l1,
    l2,
}

/// The recognizer of `true`; a variant names the letter that comes next.
#[allow(non_camel_case_types)]
#[derive(Clone, Copy, Debug, PartialEq, Eq, Structural)]
pub enum TrueMode {
    t,
    r,
    u,
    e,
}

/// The recognizer of `false`; a variant names the letter that comes next.
#[allow(non_camel_case_types)]
#[derive(Clone, Copy, Debug, PartialEq, Eq, Structural)]
pub enum FalseMode {
    f,
    a,
    l,
    s,
    e,
}

impl NullMode {
    /// The index in `null` of the letter that comes next.
    pub open spec fn position(self) -> nat {
        match self {
            NullMode::n => 0,
            NullMode::u => 1,
            NullMode::l1 => 2,
            NullMode::l2 => 3,
        }
    }

    /// A recognizer that stands before the first letter.
    pub fn new() -> (res: NullMode)
        ensures
            res.position() == 0,
    {
        NullMode::n
    }

    /// Takes one character.
    pub fn check_null(&mut self, c: char) -> (res: Result<bool, ErrorKind>)
        ensures
            res == keyword_result(null_word(), old(self).position(), c),
            final(self).position() == keyword_next(null_word(), old(self).position(), c),
    {
        let (next, res): (NullMode, Result<bool, ErrorKind>) = match *self {
            NullMode::n => {
                if c == 'n' {
                    (NullMode::u, Ok(false))
                } else if whitespace(c) {
                    (NullMode::n, Ok(false))
                } else {
                    (NullMode::n, Err(ErrorKind::InvalidLiteral))
                }
            },
            NullMode::u => {
                if c == 'u' {
                    (NullMode::l1, Ok(false))
                } else {
                    (NullMode::n, Err(ErrorKind::InvalidLiteral))
                }
            },
            NullMode::l1 => {
                if c == 'l' {
                    (NullMode::l2, Ok(false))
                } else {
                    (NullMode::n, Err(ErrorKind::InvalidLiteral))
                }
            },
            NullMode::l2 => {
                if c == 'l' {
                    (NullMode::n, Ok(true))
                } else {
                    (NullMode::n, Err(ErrorKind::InvalidLiteral))
                }
            },
        };
        *self = next;
        res
    }
}

impl TrueMode {
    /// The index in `true` of the letter that comes next.
    pub open spec fn position(self) -> nat {
        match self {
            TrueMode::t => 0,
            TrueMode::r => 1,
            TrueMode::u => 2,
            TrueMode::e => 3,
        }
    }

    /// A recognizer that stands before the first letter.
    pub fn new() -> (res: TrueMode)
        ensures
            res.position() == 0,
    {
        TrueMode::t
    }

    /// Takes one character.
    pub fn check_true(&mut self, c: char) -> (res: Result<bool, ErrorKind>)
        ensures
            res == keyword_result(true_word(), old(self).position(), c),
            final(self).position() == keyword_next(true_word(), old(self).position(), c),
    {
        let (next, res): (TrueMode, Result<bool, ErrorKind>) = match *self {
            TrueMode::t => {
                if c == 't' {
                    (TrueMode::r, Ok(false))
                } else if whitespace(c) {
                    (TrueMode::t, Ok(false))
                } else {
                    (TrueMode::t, Err(ErrorKind::InvalidLiteral))
                }
            },
            TrueMode::r => {
                if c == 'r' {
                    (TrueMode::u, Ok(false))
                } else {
                    (TrueMode::t, Err(ErrorKind::InvalidLiteral))
                }
            },
            TrueMode::u => {
                if c == 'u' {
                    (TrueMode::e, Ok(false))
                } else {
                    (TrueMode::t, Err(ErrorKind::InvalidLiteral))
                }
            },
            TrueMode::e => {
                if c == 'e' {
                    (TrueMode::t, Ok(true))
                } else {
                    (TrueMode::t, Err(ErrorKind::InvalidLiteral))
                }
            },
        };
        *self = next;
        res
    }
}

impl FalseMode {
    /// The index in `false` of the letter that comes next.
    pub open spec fn position(self) -> nat {
        match self {
            FalseMode::f => 0,
            FalseMode::a => 1,
            FalseMode::l => 2,
            FalseMode::s => 3,
            FalseMode::e => 4,
        }
    }

    /// A recognizer that stands before the first letter.
    pub fn new() -> (res: FalseMode)
        ensures
            res.position() == 0,
    {
        FalseMode::f
    }

    /// Takes one character.
    pub fn check_false(&mut self, c: char) -> (res: Result<bool, ErrorKind>)
        ensures
            res == keyword_result(false_word(), old(self).position(), c),
            final(self).position() == keyword_next(false_word(), old(self).position(), c),
    {
        let (next, res): (FalseMode, Result<bool, ErrorKind>) = match *self {
            FalseMode::f => {
                if c == 'f' {
                    (FalseMode::a, Ok(false))
                } else if whitespace(c) {
                    (FalseMode::f, Ok(false))
                } else {
                    (FalseMode::f, Err(ErrorKind::InvalidLiteral))
                }
            },
            FalseMode::a => {
                if c == 'a' {
                    (FalseMode::l, Ok(false))
                } else {
                    (FalseMode::f, Err(ErrorKind::InvalidLiteral))
                }
            },
            FalseMode::l => {
                if c == 'l' {
                    (FalseMode::s, Ok(false))
                } else {
                    (FalseMode::f, Err(ErrorKind::InvalidLiteral))
                }
            },
            FalseMode::s => {
                if c == 's' {
                    (FalseMode::e, Ok(false))
                } else {
                    (FalseMode::f, Err(ErrorKind::InvalidLiteral))
                }
            },
            FalseMode::e => {
                if c == 'e' {
                    (FalseMode::f, Ok(true))
                } else {
                    (FalseMode::f, Err(ErrorKind::InvalidLiteral))
                }
            },
        };
        *self = next;
        res
    }
}

} // verus!
