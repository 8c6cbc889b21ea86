//! How far a parse reads, and where it can fail.
//!
//! A parse stops at the character that completes the value, so what stands
//! behind a complete value changes nothing. A number at the top level is the
//! exception: no character completes it, and it reads to the end of the text.

use vstd::prelude::*;
use crate::error::{ErrorKind, ParseError};
use crate::lexis::is_whitespace;
use crate::machine::{dispatch, value_step, ArrayPhase, ObjectPhase, Outcome, ValueState};
use crate::parse::{parse_spec, run_value, scan};
use crate::value::Value;

verus! {

/// A run that gives a value other than a number gives it whatever the text
/// goes on with.
proof fn lemma_run_stops(s: ValueState, text: Seq<char>, more: Seq<char>, from: int)
    requires
        0 <= from,
        run_value(s, text, from) matches Ok(v) && !(v is Number),
    ensures
        run_value(s, text + more, from) == run_value(s, text, from),
    decreases text.len() - from,
{
    if from < text.len() {
        assert((text + more)[from] == text[from]);
        match value_step(s, text[from]) {
            Outcome::Pending(next) => {
                lemma_run_stops(next, text, more, from + 1);
            },
            _ => {},
        }
    }
}

/// A scan that gives a value other than a number gives it whatever the text
/// goes on with.
proof fn lemma_scan_stops(text: Seq<char>, more: Seq<char>, from: int)
    requires
        0 <= from,
        scan(text, from) matches Ok(v) && !(v is Number),
    ensures
        scan(text + more, from) == scan(text, from),
    decreases text.len() - from,
{
    if from < text.len() {
        assert((text + more)[from] == text[from]);
        if is_whitespace(text[from]) {
            lemma_scan_stops(text, more, from + 1);
        } else {
            match dispatch(text[from]) {
                Some(s) => {
                    lemma_run_stops(s, text, more, from + 1);
                },
                None => {},
            }
        }
    }
}

/// Where the parse of a text gives a value other than a number, the parse
/// of any text that begins with it gives the same value.
pub proof fn lemma_rest_not_read(text: Seq<char>, more: Seq<char>)
    requires
        parse_spec(text) matches Ok(v) && !(v is Number),
    ensures
        parse_spec(text + more) == parse_spec(text),
{
    lemma_scan_stops(text, more, 0);
}

/// The place of a failure of a run lies in the text, behind where the run began.
proof fn lemma_run_fails_within(s: ValueState, text: Seq<char>, from: int)
    requires
        0 <= from <= text.len() <= usize::MAX,
    ensures
        run_value(s, text, from) matches Err(e) ==> from <= e.at <= text.len() && (text.len() > 0
            ==> e.at >= 1),
    decreases text.len() - from,
{
    if from < text.len() {
        match value_step(s, text[from]) {
            Outcome::Pending(next) => {
                lemma_run_fails_within(next, text, from + 1);
            },
            _ => {},
        }
    }
}

/// The place of a failure of a scan lies in the text, behind where the scan began.
proof fn lemma_scan_fails_within(text: Seq<char>, from: int)
    requires
        0 <= from <= text.len() <= usize::MAX,
    ensures
        scan(text, from) matches Err(e) ==> from <= e.at <= text.len() && (text.len() > 0 ==> e.at
            >= 1),
    decreases text.len() - from,
{
    if from < text.len() {
        if is_whitespace(text[from]) {
            lemma_scan_fails_within(text, from + 1);
        } else {
            match dispatch(text[from]) {
                Some(s) => {
                    lemma_run_fails_within(s, text, from + 1);
                },
                None => {},
            }
        }
    }
}

/// The place of a failure is the offset of a character of the text, counted
/// from 1; only for the empty text is it 0.
pub proof fn lemma_failure_within(text: Seq<char>)
    requires
        text.len() <= usize::MAX,
    ensures
        parse_spec(text) matches Err(e) ==> e.at <= text.len() && (text.len() > 0 ==> e.at >= 1),
{
    lemma_scan_fails_within(text, 0);
}

/// A scan finds no value exactly where only whitespace is left, and says so
/// at the end of the text.
proof fn lemma_scan_empty(text: Seq<char>, from: int)
    requires
        0 <= from <= text.len(),
    ensures
        (scan(text, from) matches Err(e) && e.kind == ErrorKind::EmptyInput) <==> (forall|i: int|
            from <= i < text.len() ==> is_whitespace(#[trigger] text[i])),
        scan(text, from) matches Err(e) ==> (e.kind == ErrorKind::EmptyInput ==> e.at
            == text.len() as usize),
    decreases text.len() - from,
{
    if from < text.len() {
        if is_whitespace(text[from]) {
            lemma_scan_empty(text, from + 1);
            if forall|i: int| from + 1 <= i < text.len() ==> is_whitespace(#[trigger] text[i]) {
                assert forall|i: int| from <= i < text.len() implies is_whitespace(
                    #[trigger] text[i],
                ) by {
                    if i > from {
                        assert(is_whitespace(text[i]));
                    }
                }
            }
        } else {
            match dispatch(text[from]) {
                Some(s) => {
                    lemma_run_not_empty(s, text, from + 1);
                },
                None => {},
            }
        }
    }
}

/// A run never reports that the text holds no value.
proof fn lemma_run_not_empty(s: ValueState, text: Seq<char>, from: int)
    requires
        0 <= from <= text.len(),
    ensures
        run_value(s, text, from) matches Err(e) ==> e.kind != ErrorKind::EmptyInput,
    decreases text.len() - from,
{
    if from < text.len() {
        lemma_step_not_empty(s, text[from]);
        match value_step(s, text[from]) {
            Outcome::Pending(next) => {
                lemma_run_not_empty(next, text, from + 1);
            },
            _ => {},
        }
    }
}

/// No recognizer reports that the text holds no value.
proof fn lemma_step_not_empty(s: ValueState, c: char)
    ensures
        value_step(s, c) matches Outcome::Fault(_, e) ==> e != ErrorKind::EmptyInput,
    decreases s,
{
    match s {
        ValueState::Array(a) => {
            if let ArrayPhase::InValue(inner) = a.phase {
                lemma_step_not_empty(inner, c);
            }
        },
        ValueState::Object(o) => {
            if let ObjectPhase::InValue(inner) = o.phase {
                lemma_step_not_empty(inner, c);
            }
        },
        _ => {},
    }
}

/// A parse fails with `EmptyInput` exactly on the texts that hold nothing
/// but whitespace, the empty text among them, and reports the end of the
/// text as the place.
pub proof fn lemma_empty_input(text: Seq<char>)
    ensures
        (parse_spec(text) matches Err(e) && e.kind == ErrorKind::EmptyInput) <==> (forall|i: int|
            0 <= i < text.len() ==> is_whitespace(#[trigger] text[i])),
        text.len() == 0 ==> parse_spec(text) == Err::<Value, ParseError>(
            ParseError { at: 0, kind: ErrorKind::EmptyInput },
        ),
{
    lemma_scan_empty(text, 0);
}

} // verus!
