//! The ways in which a text can fail to be a JSON document.

use vstd::prelude::*;

verus! {

/// What a recognizer was waiting for when it met a character it cannot take.
#[derive(Clone, Copy, Debug, PartialEq, Eq, Structural)]
pub enum Expected {
    /// The first character of a value.
    Value,
    /// The quote that opens a string.
    Quote,
    /// A character that may stand unescaped inside a string.
    StringBody,
    /// The colon between a member's name and its value.
    Colon,
    /// A comma, or the bracket that closes the array or object.
    CommaOrEnd,
    /// Nothing: a number at the top level runs to the end of the text.
    EndOfInput,
}

/// Why a number buffer is not a decimal literal.
#[derive(Clone, Copy, Debug, PartialEq, Eq, Structural)]
pub enum NumberFault {
    /// The buffer holds no character.
    Empty,
    /// The buffer holds characters that do not form a decimal literal.
    Malformed,
}

/// The kind of a failure, as a recognizer reports it for the character it was given.
#[derive(Clone, Copy, Debug, PartialEq, Eq, Structural)]
pub enum ErrorKind {
    /// The text holds no significant character.
    EmptyInput,
    /// The character is not among those the current state accepts.
    UnexpectedCharacter(Expected),
    /// The character does not continue `null`, `true` or `false`.
    InvalidLiteral,
    /// The accumulated number buffer is not a decimal literal.
    InvalidNumber(NumberFault),
    /// The character does not continue a backslash escape.
    InvalidEscape,
    /// The text ended inside a string.
    UnterminatedString,
    /// The text ended inside an array.
    UnterminatedArray,
    /// The text ended inside an object.
    UnterminatedObject,
    /// A recognizer that had already finished was given another character.
    ReenteredTerminalState,
}

/// A failure of a whole parse: its kind and the place where it happened.
#[derive(Clone, Copy, Debug, PartialEq, Eq, Structural)]
pub struct ParseError {
    /// The 1-based offset, counted in characters, of the character at which
    /// the parse failed; the length of the text where it ended too early.
    pub at: usize,
    /// What went wrong there.
    pub kind: ErrorKind,
}

} // verus!
