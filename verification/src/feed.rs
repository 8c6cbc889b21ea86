//! Runs of several characters, and how a run of a value carries over to the
//! array or object that holds the value and to the parse of a whole text.

use vstd::prelude::*;
use crate::error::{ErrorKind, ParseError};
use crate::machine::{
    array_after, array_step, object_after, object_step, value_step, ArrayPhase, ArrayState,
    ObjectPhase, ObjectState, Outcome, ValueState,
};
use crate::parse::{end_of_input, failure_at_end, run_value};
use crate::value::{with_member, Value};

verus! {

/// What giving all of `text` to the value in progress `s` comes to, where
/// every character but the last is taken and lets the value go on: the
/// outcome of the last character, or the value still in progress where the
/// text is empty. `None` where an earlier character ends it already.
pub open spec fn value_feed(s: ValueState, text: Seq<char>) -> Option<Outcome>
    decreases text.len(),
{
    if text.len() == 0 {
        Some(Outcome::Pending(s))
    } else {
        match value_step(s, text[0]) {
            Outcome::Pending(next) => value_feed(next, text.drop_first()),
            other => if text.len() == 1 {
                Some(other)
            } else {
                None
            },
        }
    }
}

/// The array after all of `text`, where it takes every character of it.
pub open spec fn array_feed(a: ArrayState, text: Seq<char>) -> Option<ArrayState>
    decreases text.len(),
{
    if text.len() == 0 {
        Some(a)
    } else {
        let (next, r) = array_step(a, text[0]);
        if r is Ok {
            array_feed(next, text.drop_first())
        } else {
            None
        }
    }
}

/// The object after all of `text`, where it takes every character of it.
pub open spec fn object_feed(o: ObjectState, text: Seq<char>) -> Option<ObjectState>
    decreases text.len(),
{
    if text.len() == 0 {
        Some(o)
    } else {
        let (next, r) = object_step(o, text[0]);
        if r is Ok {
            object_feed(next, text.drop_first())
        } else {
            None
        }
    }
}

/// A value that goes on through `first` is then given `second`.
pub proof fn lemma_value_feed_concat(s: ValueState, first: Seq<char>, second: Seq<char>)
    requires
        value_feed(s, first) matches Some(Outcome::Pending(_)),
    ensures
        value_feed(s, first + second) == value_feed(
            value_feed(s, first)->0->Pending_0,
            second,
        ),
    decreases first.len(),
{
    if first.len() == 0 {
        assert(first + second =~= second);
    } else {
        let whole = first + second;
        assert(whole[0] == first[0]);
        assert(whole.drop_first() =~= first.drop_first() + second);
        match value_step(s, first[0]) {
            Outcome::Pending(next) => {
                lemma_value_feed_concat(next, first.drop_first(), second);
            },
            _ => {},
        }
    }
}

/// An array that takes `first` is then given `second`.
pub proof fn lemma_array_feed_concat(a: ArrayState, first: Seq<char>, second: Seq<char>)
    ensures
        array_feed(a, first + second) == match array_feed(a, first) {
            Some(next) => array_feed(next, second),
            None => None,
        },
    decreases first.len(),
{
    if first.len() == 0 {
        assert(first + second =~= second);
    } else {
        let whole = first + second;
        assert(whole[0] == first[0]);
        assert(whole.drop_first() =~= first.drop_first() + second);
        let (next, r) = array_step(a, first[0]);
        if r is Ok {
            lemma_array_feed_concat(next, first.drop_first(), second);
        }
    }
}

/// An object that takes `first` is then given `second`.
pub proof fn lemma_object_feed_concat(o: ObjectState, first: Seq<char>, second: Seq<char>)
    ensures
        object_feed(o, first + second) == match object_feed(o, first) {
            Some(next) => object_feed(next, second),
            None => None,
        },
    decreases first.len(),
{
    if first.len() == 0 {
        assert(first + second =~= second);
    } else {
        let whole = first + second;
        assert(whole[0] == first[0]);
        assert(whole.drop_first() =~= first.drop_first() + second);
        let (next, r) = object_step(o, first[0]);
        if r is Ok {
            lemma_object_feed_concat(next, first.drop_first(), second);
        }
    }
}

/// The array that holds the items `items` and the value in progress `s`.
pub open spec fn array_holding(items: Seq<Value>, s: ValueState) -> ArrayState {
    ArrayState { items, phase: ArrayPhase::InValue(s) }
}

/// The object that holds the members `members` and, for the member named
/// `name`, the value in progress `s`.
pub open spec fn object_holding(
    members: Seq<(Seq<char>, Value)>,
    name: Seq<char>,
    s: ValueState,
) -> ObjectState {
    ObjectState { members, name, phase: ObjectPhase::InValue(s) }
}

/// What the run of an item comes to for the array that holds it: the item
/// goes on inside the array, or it is complete and the array holds one item
/// more. Where the item ended in front of the last character, the array has
/// looked at that character too.
pub open spec fn array_carried(items: Seq<Value>, outcome: Outcome, last: char) -> Option<
    ArrayState,
> {
    match outcome {
        Outcome::Fault(_, _) => None,
        Outcome::Pending(next) => Some(array_holding(items, next)),
        Outcome::Done(v) => Some(
            ArrayState { items: items.push(v), phase: ArrayPhase::AfterValue },
        ),
        Outcome::Ended(v) => {
            let (after, r) = array_after(items.push(v), last);
            if r is Ok {
                Some(after)
            } else {
                None
            }
        },
    }
}

/// What the run of a member's value comes to for the object that holds it.
pub open spec fn object_carried(
    members: Seq<(Seq<char>, Value)>,
    name: Seq<char>,
    outcome: Outcome,
    last: char,
) -> Option<ObjectState> {
    match outcome {
        Outcome::Fault(_, _) => None,
        Outcome::Pending(next) => Some(object_holding(members, name, next)),
        Outcome::Done(v) => Some(
            ObjectState {
                members: with_member(members, name, v),
                name: Seq::empty(),
                phase: ObjectPhase::AfterValue,
            },
        ),
        Outcome::Ended(v) => {
            let (after, r) = object_after(with_member(members, name, v), last);
            if r is Ok {
                Some(after)
            } else {
                None
            }
        },
    }
}

/// The run of an item is a run of the array that holds it.
pub proof fn lemma_array_carries(items: Seq<Value>, s: ValueState, text: Seq<char>)
    requires
        text.len() > 0,
        value_feed(s, text) is Some,
    ensures
        array_feed(array_holding(items, s), text) == array_carried(
            items,
            value_feed(s, text)->0,
            text.last(),
        ),
    decreases text.len(),
{
    let a = array_holding(items, s);
    let rest = text.drop_first();
    match value_step(s, text[0]) {
        Outcome::Pending(next) => {
            assert(array_step(a, text[0]) == (array_holding(items, next), Ok::<(), ErrorKind>(())));
            if rest.len() > 0 {
                assert(rest.last() == text.last());
                lemma_array_carries(items, next, rest);
            }
        },
        other => {
            assert(text.len() == 1);
            assert(text.last() == text[0]);
            let (next, r) = array_step(a, text[0]);
            if r is Ok {
                assert(array_feed(next, rest) == Some(next));
            }
        },
    }
}

/// The run of a member's value is a run of the object that holds it.
pub proof fn lemma_object_carries(
    members: Seq<(Seq<char>, Value)>,
    name: Seq<char>,
    s: ValueState,
    text: Seq<char>,
)
    requires
        text.len() > 0,
        value_feed(s, text) is Some,
    ensures
        object_feed(object_holding(members, name, s), text) == object_carried(
            members,
            name,
            value_feed(s, text)->0,
            text.last(),
        ),
    decreases text.len(),
{
    let o = object_holding(members, name, s);
    let rest = text.drop_first();
    match value_step(s, text[0]) {
        Outcome::Pending(next) => {
            assert(object_step(o, text[0]) == (
                object_holding(members, name, next),
                Ok::<(), ErrorKind>(()),
            ));
            if rest.len() > 0 {
                assert(rest.last() == text.last());
                lemma_object_carries(members, name, next, rest);
            }
        },
        other => {
            assert(text.len() == 1);
            assert(text.last() == text[0]);
            let (next, r) = object_step(o, text[0]);
            if r is Ok {
                assert(object_feed(next, rest) == Some(next));
            }
        },
    }
}

/// The run of an array is the run of the array as a value: it goes on until
/// the closing bracket, which completes it.
pub proof fn lemma_array_as_value(a: ArrayState, text: Seq<char>)
    requires
        text.len() > 0,
        array_feed(a, text) is Some,
    ensures
        value_feed(ValueState::Array(Box::new(a)), text) == Some(
            if array_feed(a, text)->0.phase is End {
                Outcome::Done(Value::Array(array_feed(a, text)->0.items))
            } else {
                Outcome::Pending(ValueState::Array(Box::new(array_feed(a, text)->0)))
            },
        ),
    decreases text.len(),
{
    let (next, r) = array_step(a, text[0]);
    let rest = text.drop_first();
    if rest.len() == 0 {
        assert(array_feed(next, rest) == Some(next));
    } else {
        if next.phase is End {
            assert(array_step(next, rest[0]).1 is Err);
        } else {
            lemma_array_as_value(next, rest);
        }
    }
}

/// The run of an object is the run of the object as a value: it goes on
/// until the closing brace, which completes it.
pub proof fn lemma_object_as_value(o: ObjectState, text: Seq<char>)
    requires
        text.len() > 0,
        object_feed(o, text) is Some,
    ensures
        value_feed(ValueState::Object(Box::new(o)), text) == Some(
            if object_feed(o, text)->0.phase is End {
                Outcome::Done(Value::Object(object_feed(o, text)->0.members))
            } else {
                Outcome::Pending(ValueState::Object(Box::new(object_feed(o, text)->0)))
            },
        ),
    decreases text.len(),
{
    let (next, r) = object_step(o, text[0]);
    let rest = text.drop_first();
    if rest.len() == 0 {
        assert(object_feed(next, rest) == Some(next));
    } else {
        if next.phase is End {
            assert(object_step(next, rest[0]).1 is Err);
        } else {
            lemma_object_as_value(next, rest);
        }
    }
}

/// A run that completes the value is the parse of a text that holds it: the
/// parse of `text` from `from` on gives that value, whatever stands behind.
pub proof fn lemma_run_completes(s: ValueState, text: Seq<char>, from: int, to: int, v: Value)
    requires
        0 <= from <= to <= text.len(),
        value_feed(s, text.subrange(from, to)) == Some(Outcome::Done(v)),
    ensures
        run_value(s, text, from) == Ok::<Value, ParseError>(v),
    decreases to - from,
{
    let part = text.subrange(from, to);
    assert(part.len() > 0);
    assert(part[0] == text[from]);
    match value_step(s, text[from]) {
        Outcome::Pending(next) => {
            assert(part.drop_first() =~= text.subrange(from + 1, to));
            lemma_run_completes(next, text, from + 1, to, v);
        },
        _ => {},
    }
}

/// A run that reaches the end of the text with the value still in progress
/// leaves the parse to what the end of the text makes of it.
pub proof fn lemma_run_reaches_end(s: ValueState, text: Seq<char>, from: int, last: ValueState)
    requires
        0 <= from <= text.len(),
        value_feed(s, text.subrange(from, text.len() as int)) == Some(Outcome::Pending(last)),
    ensures
        run_value(s, text, from) == match end_of_input(last) {
            Ok(v) => Ok::<Value, ParseError>(v),
            Err(e) => Err(failure_at_end(text, e)),
        },
    decreases text.len() - from,
{
    let part = text.subrange(from, text.len() as int);
    if from < text.len() {
        assert(part[0] == text[from]);
        match value_step(s, text[from]) {
            Outcome::Pending(next) => {
                assert(part.drop_first() =~= text.subrange(from + 1, text.len() as int));
                lemma_run_reaches_end(next, text, from + 1, last);
            },
            _ => {},
        }
    }
}

} // verus!
