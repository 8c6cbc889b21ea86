//! Whitespace between the tokens of a document changes nothing: in front of
//! a value, around the commas and colons, and before the brackets that close.
//! Inside a string it is not whitespace but a character like any other, and
//! a line feed or a carriage return stands there only as an escape.

use vstd::prelude::*;
use crate::error::{ErrorKind, Expected, ParseError};
use crate::feed::{array_feed, object_feed};
use crate::lexis::is_whitespace;
use crate::machine::{
    array_step, dispatch, object_step, string_fresh, value_step, ArrayState, ObjectPhase,
    ObjectState, Outcome, ValueState,
};
use crate::parse::{parse_spec, run_value, scan};
use crate::string::{string_step, StringPhase, StringState};
use crate::value::Value;

verus! {

/// A text of whitespace only.
pub open spec fn all_whitespace(text: Seq<char>) -> bool {
    forall|i: int| 0 <= i < text.len() ==> is_whitespace(#[trigger] text[i])
}

/// The array stands between two tokens.
pub open spec fn array_between_tokens(a: ArrayState) -> bool {
    a.phase is ExpectValue || a.phase is AfterValue
}

/// The object stands between two tokens.
pub open spec fn object_between_tokens(o: ObjectState) -> bool {
    ||| o.phase == ObjectPhase::Key(string_fresh())
    ||| o.phase is Colon
    ||| o.phase is ExpectValue
    ||| o.phase is AfterValue && o.name == Seq::<char>::empty()
}

/// The result of a parse of a text that has `by` characters more in front.
pub open spec fn moved(r: Result<Value, ParseError>, by: int) -> Result<Value, ParseError> {
    match r {
        Ok(v) => Ok(v),
        Err(e) => Err(ParseError { at: (e.at + by) as usize, kind: e.kind }),
    }
}

/// An array between two tokens takes a whitespace character and stays as it is.
pub proof fn lemma_array_takes_whitespace(a: ArrayState, c: char)
    requires
        array_between_tokens(a),
        is_whitespace(c),
    ensures
        array_step(a, c) == (a, Ok::<(), ErrorKind>(())),
{
}

/// An object between two tokens takes a whitespace character and stays as it is.
pub proof fn lemma_object_takes_whitespace(o: ObjectState, c: char)
    requires
        object_between_tokens(o),
        is_whitespace(c),
    ensures
        object_step(o, c) == (o, Ok::<(), ErrorKind>(())),
{
}

/// The body of a string refuses a line feed, a carriage return and a tab, and
/// takes a space as a character of the string.
pub proof fn lemma_string_body_whitespace(text: Seq<char>, c: char)
    ensures
        c == '\n' || c == '\r' || c == '\t' ==> string_step(
            StringState { text, phase: StringPhase::Body },
            c,
        ).1 == Err::<(), ErrorKind>(ErrorKind::UnexpectedCharacter(Expected::StringBody)),
        c == ' ' ==> string_step(StringState { text, phase: StringPhase::Body }, c) == (
            StringState { text: text.push(' '), phase: StringPhase::Body },
            Ok::<(), ErrorKind>(()),
        ),
{
}

/// Whitespace in front of what an array between two tokens is given changes
/// nothing of what the array comes to.
pub proof fn lemma_array_skips_whitespace(a: ArrayState, space: Seq<char>, text: Seq<char>)
    requires
        array_between_tokens(a),
        all_whitespace(space),
    ensures
        array_feed(a, space + text) == array_feed(a, text),
    decreases space.len(),
{
    if space.len() == 0 {
        assert(space + text =~= text);
    } else {
        let whole = space + text;
        assert(whole[0] == space[0]);
        assert(is_whitespace(space[0]));
        assert(whole.drop_first() =~= space.drop_first() + text);
        lemma_array_takes_whitespace(a, space[0]);
        lemma_array_skips_whitespace(a, space.drop_first(), text);
    }
}

/// Whitespace in front of what an object between two tokens is given changes
/// nothing of what the object comes to.
pub proof fn lemma_object_skips_whitespace(o: ObjectState, space: Seq<char>, text: Seq<char>)
    requires
        object_between_tokens(o),
        all_whitespace(space),
    ensures
        object_feed(o, space + text) == object_feed(o, text),
    decreases space.len(),
{
    if space.len() == 0 {
        assert(space + text =~= text);
    } else {
        let whole = space + text;
        assert(whole[0] == space[0]);
        assert(is_whitespace(space[0]));
        assert(whole.drop_first() =~= space.drop_first() + text);
        lemma_object_takes_whitespace(o, space[0]);
        lemma_object_skips_whitespace(o, space.drop_first(), text);
    }
}

/// A run over a text with more characters in front of it gives what the run
/// over the text gives, with the place of a failure moved.
proof fn lemma_run_moved(s: ValueState, front: Seq<char>, text: Seq<char>, from: int)
    requires
        0 <= from <= text.len(),
        front.len() + text.len() <= usize::MAX,
    ensures
        run_value(s, front + text, front.len() + from) == moved(
            run_value(s, text, from),
            front.len() as int,
        ),
    decreases text.len() - from,
{
    let whole = front + text;
    if from < text.len() {
        assert(whole[front.len() + from] == text[from]);
        match value_step(s, text[from]) {
            Outcome::Pending(next) => {
                lemma_run_moved(next, front, text, from + 1);
            },
            _ => {},
        }
    }
}

/// A scan over a text with more characters in front of it gives what the scan
/// over the text gives, with the place of a failure moved.
proof fn lemma_scan_moved(front: Seq<char>, text: Seq<char>, from: int)
    requires
        0 <= from <= text.len(),
        front.len() + text.len() <= usize::MAX,
    ensures
        scan(front + text, front.len() + from) == moved(scan(text, from), front.len() as int),
    decreases text.len() - from,
{
    let whole = front + text;
    if from < text.len() {
        assert(whole[front.len() + from] == text[from]);
        if is_whitespace(text[from]) {
            lemma_scan_moved(front, text, from + 1);
        } else {
            match dispatch(text[from]) {
                Some(s) => {
                    lemma_run_moved(s, front, text, from + 1);
                },
                None => {},
            }
        }
    }
}

/// A scan passes over whitespace.
proof fn lemma_scan_skips(space: Seq<char>, text: Seq<char>, from: int)
    requires
        all_whitespace(space),
        0 <= from <= space.len(),
    ensures
        scan(space + text, from) == scan(space + text, space.len() as int),
    decreases space.len() - from,
{
    if from < space.len() {
        assert((space + text)[from] == space[from]);
        assert(is_whitespace(space[from]));
        lemma_scan_skips(space, text, from + 1);
    }
}

/// Whitespace in front of a text changes nothing of what its parse gives but
/// the place of a failure, which moves by the length of the whitespace.
pub proof fn lemma_parse_skips_whitespace(space: Seq<char>, text: Seq<char>)
    requires
        all_whitespace(space),
        space.len() + text.len() <= usize::MAX,
    ensures
        parse_spec(space + text) == moved(parse_spec(text), space.len() as int),
{
    lemma_scan_skips(space, text, 0);
    lemma_scan_moved(space, text, 0);
}

} // verus!
