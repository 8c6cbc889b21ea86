//! The recognizers as state machines over plain values.
//!
//! A value in progress is a `ValueState`. Arrays and objects hold the value
//! that is in progress inside them, so a nest of arrays and objects is a nest
//! of states. Every function here says what one character does to a state;
//! the executable recognizers are proved to do exactly that.

use vstd::prelude::*;
use crate::error::{ErrorKind, Expected};
use crate::lexis::{is_number_start, is_whitespace};
use crate::literal::{false_word, keyword_next, keyword_result, null_word, true_word};
use crate::number::{number_next, number_result};
use crate::string::{string_step, StringPhase, StringState};
use crate::lexis::number_start;
use crate::value::{with_member, Json, Value};

verus! {

/// One of the three keywords.
pub ghost enum Keyword {
    Null,
    True,
    False,
}

impl Keyword {
    /// The letters of the keyword.
    pub open spec fn word(self) -> Seq<char> {
        match self {
            Keyword::Null => null_word(),
            Keyword::True => true_word(),
            Keyword::False => false_word(),
        }
    }

    /// The value that the keyword stands for.
    pub open spec fn value(self) -> Value {
        match self {
            Keyword::Null => Value::Null,
            Keyword::True => Value::Boolean(true),
            Keyword::False => Value::Boolean(false),
        }
    }
}

/// A value in progress.
pub ghost enum ValueState {
    /// A keyword, and the index of its letter that comes next.
    Literal(Keyword, nat),
    /// A number, and the characters collected for it.
    Number(Seq<char>),
    String(StringState),
    Array(Box<ArrayState>),
    Object(Box<ObjectState>),
}

/// The step of an array.
pub ghost enum ArrayPhase {
    /// A value must begin; whitespace is passed over.
    ExpectValue,
    /// A value is in progress.
    InValue(ValueState),
    /// A value is complete: a comma or the closing bracket comes next.
    AfterValue,
    /// The closing bracket has been taken.
    End,
}

/// An array in progress: the values completed so far, and the step.
pub ghost struct ArrayState {
    pub items: Seq<Value>,
    pub phase: ArrayPhase,
}

/// The step of an object.
pub ghost enum ObjectPhase {
    /// The name of a member is in progress.
    Key(StringState),
    /// The name is complete: the colon comes next.
    Colon,
    /// The member's value must begin; whitespace is passed over.
    ExpectValue,
    /// The member's value is in progress.
    InValue(ValueState),
    /// A member is complete: a comma or the closing brace comes next.
    AfterValue,
    /// The closing brace has been taken.
    End,
}

/// An object in progress: the members completed so far, the name of the
/// member in progress, and the step.
pub ghost struct ObjectState {
    pub members: Seq<(Seq<char>, Value)>,
    pub name: Seq<char>,
    pub phase: ObjectPhase,
}

/// What one character does to a value in progress.
pub ghost enum Outcome {
    /// The character is refused; the state is what the refusal left.
    Fault(ValueState, ErrorKind),
    /// The character is taken and the value goes on.
    Pending(ValueState),
    /// The character is taken and completes the value.
    Done(Value),
    /// The value is complete without the character, which still has to be
    /// looked at by whatever holds the value. Only a number ends so.
    Ended(Value),
}

/// An array that has taken its opening bracket.
pub open spec fn array_opened() -> ArrayState {
    ArrayState { items: Seq::empty(), phase: ArrayPhase::ExpectValue }
}

/// A string that waits for its opening quote.
pub open spec fn string_fresh() -> StringState {
    StringState { text: Seq::empty(), phase: StringPhase::Start }
}

/// A string that has taken its opening quote.
pub open spec fn string_opened() -> StringState {
    StringState { text: Seq::empty(), phase: StringPhase::Body }
}

/// An object that has taken its opening brace.
pub open spec fn object_opened() -> ObjectState {
    ObjectState {
        members: Seq::empty(),
        name: Seq::empty(),
        phase: ObjectPhase::Key(string_fresh()),
    }
}

/// The value that begins with `c`, with `c` taken; `None` where no value
/// begins with `c`.
pub open spec fn dispatch(c: char) -> Option<ValueState> {
    if c == 'n' {
        Some(ValueState::Literal(Keyword::Null, 1))
    } else if c == 't' {
        Some(ValueState::Literal(Keyword::True, 1))
    } else if c == 'f' {
        Some(ValueState::Literal(Keyword::False, 1))
    } else if is_number_start(c) {
        Some(ValueState::Number(seq![c]))
    } else if c == '"' {
        Some(ValueState::String(string_opened()))
    } else if c == '[' {
        Some(ValueState::Array(Box::new(array_opened())))
    } else if c == '{' {
        Some(ValueState::Object(Box::new(object_opened())))
    } else {
        None
    }
}

/// The value that stands for the kind of a value that has just begun: the
/// keyword's value, the number's first character, or the empty string, array
/// or object.
pub open spec fn kind_of(s: ValueState) -> Value {
    match s {
        ValueState::Literal(k, _) => k.value(),
        ValueState::Number(buffer) => Value::Number(buffer),
        ValueState::String(_) => Value::String(Seq::empty()),
        ValueState::Array(_) => Value::Array(Seq::empty()),
        ValueState::Object(_) => Value::Object(Seq::empty()),
    }
}

/// The value in progress that has just begun, told from the tree that stands
/// for its kind.
pub open spec fn begun(kind: Value) -> ValueState {
    match kind {
        Value::Null => ValueState::Literal(Keyword::Null, 1),
        Value::Boolean(b) => if b {
            ValueState::Literal(Keyword::True, 1)
        } else {
            ValueState::Literal(Keyword::False, 1)
        },
        Value::Number(buffer) => ValueState::Number(buffer),
        Value::String(_) => ValueState::String(string_opened()),
        Value::Array(_) => ValueState::Array(Box::new(array_opened())),
        Value::Object(_) => ValueState::Object(Box::new(object_opened())),
    }
}

/// The kind of a value that has just begun tells its state.
pub proof fn lemma_begun(c: char)
    ensures
        dispatch(c) matches Some(s) ==> begun(kind_of(s)) == s,
{
}

/// Tells from its first character of which kind a value is. The answer is a
/// tree of that kind: the keyword's value, a number that holds `c`, or an
/// empty string, array or object.
pub fn judgment_json_type(c: char) -> (r: Result<Json, ErrorKind>)
    ensures
        match dispatch(c) {
            Some(s) => r matches Ok(j) && j@ == kind_of(s),
            None => r == Err::<Json, ErrorKind>(ErrorKind::UnexpectedCharacter(Expected::Value)),
        },
{
    if c == 'n' {
        Ok(Json::Null)
    } else if c == 't' {
        Ok(Json::Boolean(true))
    } else if c == 'f' {
        Ok(Json::Boolean(false))
    } else if number_start(c) {
        let mut first = String::new();
        first.push(c);
        assert(first@ =~= seq![c]);
        Ok(Json::Number(first))
    } else if c == '"' {
        Ok(Json::String(String::new()))
    } else if c == '[' {
        let j = Json::Array(Vec::new());
        proof {
            assert(j@->Array_0 =~= Seq::empty());
        }
        Ok(j)
    } else if c == '{' {
        let j = Json::Object(Vec::new());
        proof {
            assert(j@->Object_0 =~= Seq::empty());
        }
        Ok(j)
    } else {
        Err(ErrorKind::UnexpectedCharacter(Expected::Value))
    }
}

/// As `judgment_json_type`, but whitespace is passed over: for it the answer
/// is `None`.
pub fn judgment_json_type_option(c: char) -> (r: Result<Option<Json>, ErrorKind>)
    ensures
        is_whitespace(c) ==> r matches Ok(None),
        !is_whitespace(c) ==> match dispatch(c) {
            Some(s) => r matches Ok(Some(j)) && j@ == kind_of(s),
            None => r == Err::<Option<Json>, ErrorKind>(
                ErrorKind::UnexpectedCharacter(Expected::Value),
            ),
        },
{
    if c == '\r' || c == '\n' || c == ' ' {
        Ok(None)
    } else {
        match judgment_json_type(c) {
            Ok(j) => Ok(Some(j)),
            Err(e) => Err(e),
        }
    }
}

/// One character given to a value in progress.
pub open spec fn value_step(s: ValueState, c: char) -> Outcome
    decreases s,
{
    match s {
        ValueState::Literal(k, at) => {
            let next = ValueState::Literal(k, keyword_next(k.word(), at, c));
            match keyword_result(k.word(), at, c) {
                Ok(done) => if done {
                    Outcome::Done(k.value())
                } else {
                    Outcome::Pending(next)
                },
                Err(e) => Outcome::Fault(next, e),
            }
        },
        ValueState::Number(buffer) => {
            match number_result(buffer, c) {
                Ok(ended) => if ended {
                    Outcome::Ended(Value::Number(buffer))
                } else {
                    Outcome::Pending(ValueState::Number(number_next(buffer, c)))
                },
                Err(e) => Outcome::Fault(s, e),
            }
        },
        ValueState::String(st) => {
            let (next, r) = string_step(st, c);
            match r {
                Ok(_) => if next.phase is End {
                    Outcome::Done(Value::String(next.text))
                } else {
                    Outcome::Pending(ValueState::String(next))
                },
                Err(e) => Outcome::Fault(ValueState::String(next), e),
            }
        },
        ValueState::Array(a) => {
            let (next, r) = array_step(*a, c);
            match r {
                Ok(_) => if next.phase is End {
                    Outcome::Done(Value::Array(next.items))
                } else {
                    Outcome::Pending(ValueState::Array(Box::new(next)))
                },
                Err(e) => Outcome::Fault(ValueState::Array(Box::new(next)), e),
            }
        },
        ValueState::Object(o) => {
            let (next, r) = object_step(*o, c);
            match r {
                Ok(_) => if next.phase is End {
                    Outcome::Done(Value::Object(next.members))
                } else {
                    Outcome::Pending(ValueState::Object(Box::new(next)))
                },
                Err(e) => Outcome::Fault(ValueState::Object(Box::new(next)), e),
            }
        },
    }
}

/// One character given to an array that has just completed a value.
pub open spec fn array_after(items: Seq<Value>, c: char) -> (ArrayState, Result<(), ErrorKind>) {
    if c == ',' {
        (ArrayState { items, phase: ArrayPhase::ExpectValue }, Ok(()))
    } else if is_whitespace(c) {
        (ArrayState { items, phase: ArrayPhase::AfterValue }, Ok(()))
    } else if c == ']' {
        (ArrayState { items, phase: ArrayPhase::End }, Ok(()))
    } else {
        (
            ArrayState { items, phase: ArrayPhase::AfterValue },
            Err(ErrorKind::UnexpectedCharacter(Expected::CommaOrEnd)),
        )
    }
}

/// One character given to an array.
pub open spec fn array_step(a: ArrayState, c: char) -> (ArrayState, Result<(), ErrorKind>)
    decreases a,
{
    match a.phase {
        ArrayPhase::ExpectValue => {
            if is_whitespace(c) {
                (a, Ok(()))
            } else {
                match dispatch(c) {
                    Some(v) => (ArrayState { items: a.items, phase: ArrayPhase::InValue(v) }, Ok(())),
                    None => (a, Err(ErrorKind::UnexpectedCharacter(Expected::Value))),
                }
            }
        },
        ArrayPhase::InValue(v) => {
            match value_step(v, c) {
                Outcome::Fault(next, e) => (
                    ArrayState { items: a.items, phase: ArrayPhase::InValue(next) },
                    Err(e),
                ),
                Outcome::Pending(next) => (
                    ArrayState { items: a.items, phase: ArrayPhase::InValue(next) },
                    Ok(()),
                ),
                Outcome::Done(value) => (
                    ArrayState { items: a.items.push(value), phase: ArrayPhase::AfterValue },
                    Ok(()),
                ),
                Outcome::Ended(value) => array_after(a.items.push(value), c),
            }
        },
        ArrayPhase::AfterValue => array_after(a.items, c),
        ArrayPhase::End => (a, Err(ErrorKind::ReenteredTerminalState)),
    }
}

/// One character given to an object that has just completed a member.
pub open spec fn object_after(members: Seq<(Seq<char>, Value)>, c: char) -> (
    ObjectState,
    Result<(), ErrorKind>,
) {
    let name = Seq::<char>::empty();
    if c == ',' {
        (ObjectState { members, name, phase: ObjectPhase::Key(string_fresh()) }, Ok(()))
    } else if is_whitespace(c) {
        (ObjectState { members, name, phase: ObjectPhase::AfterValue }, Ok(()))
    } else if c == '}' {
        (ObjectState { members, name, phase: ObjectPhase::End }, Ok(()))
    } else {
        (
            ObjectState { members, name, phase: ObjectPhase::AfterValue },
            Err(ErrorKind::UnexpectedCharacter(Expected::CommaOrEnd)),
        )
    }
}

/// One character given to an object.
pub open spec fn object_step(o: ObjectState, c: char) -> (ObjectState, Result<(), ErrorKind>)
    decreases o,
{
    match o.phase {
        ObjectPhase::Key(st) => {
            let (next, r) = string_step(st, c);
            if r is Ok && next.phase is End {
                (
                    ObjectState { members: o.members, name: next.text, phase: ObjectPhase::Colon },
                    Ok(()),
                )
            } else {
                (
                    ObjectState { members: o.members, name: o.name, phase: ObjectPhase::Key(next) },
                    r,
                )
            }
        },
        ObjectPhase::Colon => {
            if c == ':' {
                (
                    ObjectState {
                        members: o.members,
                        name: o.name,
                        phase: ObjectPhase::ExpectValue,
                    },
                    Ok(()),
                )
            } else if is_whitespace(c) {
                (o, Ok(()))
            } else {
                (o, Err(ErrorKind::UnexpectedCharacter(Expected::Colon)))
            }
        },
        ObjectPhase::ExpectValue => {
            if is_whitespace(c) {
                (o, Ok(()))
            } else {
                match dispatch(c) {
                    Some(v) => (
                        ObjectState {
                            members: o.members,
                            name: o.name,
                            phase: ObjectPhase::InValue(v),
                        },
                        Ok(()),
                    ),
                    None => (o, Err(ErrorKind::UnexpectedCharacter(Expected::Value))),
                }
            }
        },
        ObjectPhase::InValue(v) => {
            match value_step(v, c) {
                Outcome::Fault(next, e) => (
                    ObjectState {
                        members: o.members,
                        name: o.name,
                        phase: ObjectPhase::InValue(next),
                    },
                    Err(e),
                ),
                Outcome::Pending(next) => (
                    ObjectState {
                        members: o.members,
                        name: o.name,
                        phase: ObjectPhase::InValue(next),
                    },
                    Ok(()),
                ),
                Outcome::Done(value) => (
                    ObjectState {
                        members: with_member(o.members, o.name, value),
                        name: Seq::empty(),
                        phase: ObjectPhase::AfterValue,
                    },
                    Ok(()),
                ),
                Outcome::Ended(value) => object_after(with_member(o.members, o.name, value), c),
            }
        },
        ObjectPhase::AfterValue => object_after(o.members, c),
        ObjectPhase::End => (o, Err(ErrorKind::ReenteredTerminalState)),
    }
}

} // verus!
