//! The parse of a whole text.
//!
//! Whitespace in front is passed over. The first other character decides of
//! which kind the value is, and the characters behind it go to the recognizer
//! of that kind, one by one, until it reports the value complete. What stands
//! behind a complete value is not looked at. A number has no last character
//! of its own: at the top level it runs to the end of the text.

use vstd::prelude::*;
use vstd::string::StrSliceExecFns;
use crate::array::ArrayContext;
use crate::error::{ErrorKind, Expected, ParseError};
use crate::lexis::is_whitespace;
use crate::literal::{FalseMode, NullMode, TrueMode};
use crate::machine::{
    begun, dispatch, judgment_json_type_option, lemma_begun, value_step, Keyword, Outcome,
    ValueState,
};
use crate::number::{is_decimal_literal, number_fault, NumberContext};
use crate::object::ObjectContext;
use crate::extent::{lemma_empty_input, lemma_failure_within};
use crate::sound::lemma_parse_producible;
use crate::string::StringContext;
use crate::value::{Json, Value};

verus! {

/// What a value in progress comes to when the text ends: a number is
/// complete if its buffer is a decimal literal; nothing else can end here.
pub open spec fn end_of_input(s: ValueState) -> Result<Value, ErrorKind> {
    match s {
        ValueState::Literal(_, _) => Err(ErrorKind::InvalidLiteral),
        ValueState::Number(buffer) => if is_decimal_literal(buffer) {
            Ok(Value::Number(buffer))
        } else {
            Err(ErrorKind::InvalidNumber(number_fault(buffer)))
        },
        ValueState::String(_) => Err(ErrorKind::UnterminatedString),
        ValueState::Array(_) => Err(ErrorKind::UnterminatedArray),
        ValueState::Object(_) => Err(ErrorKind::UnterminatedObject),
    }
}

/// A failure at the character with index `i`.
pub open spec fn failure_at(i: int, kind: ErrorKind) -> ParseError {
    ParseError { at: (i + 1) as usize, kind }
}

/// A failure at the end of `text`.
pub open spec fn failure_at_end(text: Seq<char>, kind: ErrorKind) -> ParseError {
    ParseError { at: text.len() as usize, kind }
}

/// The result of giving the characters of `text` from `from` on to the value
/// in progress `s`.
pub open spec fn run_value(s: ValueState, text: Seq<char>, from: int) -> Result<Value, ParseError>
    decreases text.len() - from,
{
    if from < 0 || from >= text.len() {
        match end_of_input(s) {
            Ok(v) => Ok(v),
            Err(e) => Err(failure_at_end(text, e)),
        }
    } else {
        match value_step(s, text[from]) {
            Outcome::Fault(_, e) => Err(failure_at(from, e)),
            Outcome::Pending(next) => run_value(next, text, from + 1),
            Outcome::Done(v) => Ok(v),
            Outcome::Ended(_) => Err(
                failure_at(from, ErrorKind::UnexpectedCharacter(Expected::EndOfInput)),
            ),
        }
    }
}

/// The result of the parse of `text` from `from` on, where only whitespace
/// stands before `from`.
pub open spec fn scan(text: Seq<char>, from: int) -> Result<Value, ParseError>
    decreases text.len() - from,
{
    if from < 0 || from >= text.len() {
        Err(failure_at_end(text, ErrorKind::EmptyInput))
    } else if is_whitespace(text[from]) {
        scan(text, from + 1)
    } else {
        match dispatch(text[from]) {
            Some(s) => run_value(s, text, from + 1),
            None => Err(failure_at(from, ErrorKind::UnexpectedCharacter(Expected::Value))),
        }
    }
}

/// The result of the parse of `text`.
pub open spec fn parse_spec(text: Seq<char>) -> Result<Value, ParseError> {
    scan(text, 0)
}

/// The recognizer of the value at the top of a text.
enum Root {
    Null(NullMode),
    JsonTrue(TrueMode),
    JsonFalse(FalseMode),
    Number(NumberContext),
    String(StringContext),
    Array(ArrayContext),
    Object(ObjectContext),
}

impl Root {
    /// The value in progress that the recognizer stands for.
    spec fn state(self) -> ValueState {
        match self {
            Root::Null(m) => ValueState::Literal(Keyword::Null, m.position()),
            Root::JsonTrue(m) => ValueState::Literal(Keyword::True, m.position()),
            Root::JsonFalse(m) => ValueState::Literal(Keyword::False, m.position()),
            Root::Number(n) => ValueState::Number(n@),
            Root::String(s) => ValueState::String(s@),
            Root::Array(a) => ValueState::Array(Box::new(a@)),
            Root::Object(o) => ValueState::Object(Box::new(o@)),
        }
    }

    /// The recognizer of a value of the kind of `kind`, its first character
    /// taken.
    fn begin(kind: Json) -> (r: Root)
        ensures
            r.state() == begun(kind@),
    {
        match kind {
            Json::Null => Root::Null(NullMode::u),
            Json::Boolean(b) => if b {
                Root::JsonTrue(TrueMode::r)
            } else {
                Root::JsonFalse(FalseMode::a)
            },
            Json::Number(first) => Root::Number(NumberContext::new_from_str(first.as_str())),
            Json::String(_) => Root::String(StringContext::opened()),
            Json::Array(_) => Root::Array(ArrayContext::new_judgment_type()),
            Json::Object(_) => Root::Object(ObjectContext::new_key()),
        }
    }

    /// Takes one character: `Ok(None)` while the value goes on, the value
    /// once it is complete.
    fn feed(&mut self, c: char) -> (r: Result<Option<Json>, ErrorKind>)
        ensures
            match value_step(old(self).state(), c) {
                Outcome::Fault(_, e) => r == Err::<Option<Json>, ErrorKind>(e),
                Outcome::Pending(next) => r matches Ok(None) && final(self).state() == next,
                Outcome::Done(v) => r matches Ok(Some(j)) && j@ == v,
                Outcome::Ended(_) => r == Err::<Option<Json>, ErrorKind>(
                    ErrorKind::UnexpectedCharacter(Expected::EndOfInput),
                ),
            },
    {
        match self {
            Root::Null(context) => match context.check_null(c) {
                Ok(done) => if done {
                    Ok(Some(Json::Null))
                } else {
                    Ok(None)
                },
                Err(e) => Err(e),
            },
            Root::JsonTrue(context) => match context.check_true(c) {
                Ok(done) => if done {
                    Ok(Some(Json::Boolean(true)))
                } else {
                    Ok(None)
                },
                Err(e) => Err(e),
            },
            Root::JsonFalse(context) => match context.check_false(c) {
                Ok(done) => if done {
                    Ok(Some(Json::Boolean(false)))
                } else {
                    Ok(None)
                },
                Err(e) => Err(e),
            },
            Root::Number(context) => match context.feed(c) {
                Ok(ended) => if ended {
                    Err(ErrorKind::UnexpectedCharacter(Expected::EndOfInput))
                } else {
                    Ok(None)
                },
                Err(e) => Err(e),
            },
            Root::String(context) => match context.check_string(c) {
                Ok(()) => if context.finished() {
                    Ok(Some(Json::String(String::from_str(context.get_str()))))
                } else {
                    Ok(None)
                },
                Err(e) => Err(e),
            },
            Root::Array(context) => match context.check_array(c) {
                Ok(()) => if context.finished() {
                    let mut done = ArrayContext::new_judgment_type();
                    std::mem::swap(context, &mut done);
                    Ok(Some(done.into_json()))
                } else {
                    Ok(None)
                },
                Err(e) => Err(e),
            },
            Root::Object(context) => match context.check_object(c) {
                Ok(()) => if context.finished() {
                    let mut done = ObjectContext::new_key();
                    std::mem::swap(context, &mut done);
                    Ok(Some(done.into_json()))
                } else {
                    Ok(None)
                },
                Err(e) => Err(e),
            },
        }
    }

    /// Closes the value at the end of the text.
    fn end(self) -> (r: Result<Json, ErrorKind>)
        ensures
            match end_of_input(self.state()) {
                Ok(v) => r matches Ok(j) && j@ == v,
                Err(e) => r == Err::<Json, ErrorKind>(e),
            },
    {
        match self {
            Root::Null(_) => Err(ErrorKind::InvalidLiteral),
            Root::JsonTrue(_) => Err(ErrorKind::InvalidLiteral),
            Root::JsonFalse(_) => Err(ErrorKind::InvalidLiteral),
            Root::Number(context) => {
                let mut context = context;
                assert(context@ + ""@ =~= context@) by {
                    reveal_strlit("");
                }
                match context.check_number("") {
                    Ok(()) => Ok(Json::Number(context.get_number())),
                    Err(e) => Err(e),
                }
            },
            Root::String(_) => Err(ErrorKind::UnterminatedString),
            Root::Array(_) => Err(ErrorKind::UnterminatedArray),
            Root::Object(_) => Err(ErrorKind::UnterminatedObject),
        }
    }
}

impl Json {
    /// Parses `text` as one value.
    ///
    /// The result is that of `parse_spec`. A value that is given is one that
    /// a parse may give, and so well formed. A failure names the offset of a
    /// character of the text, counted from 1, or the length of the text where
    /// the text ended too early. The text that holds nothing fails with
    /// `EmptyInput`, and so does the text that holds only whitespace.
    pub fn str_to_json(text: &str) -> (r: Result<Json, ParseError>)
        ensures
            match r {
                Ok(j) => parse_spec(text@) == Ok::<Value, ParseError>(j@),
                Err(e) => parse_spec(text@) == Err::<Value, ParseError>(e),
            },
            r matches Ok(j) ==> j@.producible() && j@.well_formed(),
            r matches Err(e) ==> e.at <= text@.len() && (text@.len() > 0 ==> e.at >= 1),
            text@.len() == 0 ==> r == Err::<Json, ParseError>(
                ParseError { at: 0, kind: ErrorKind::EmptyInput },
            ),
            (r matches Err(e) && e.kind == ErrorKind::EmptyInput) <==> (forall|i: int|
                0 <= i < text@.len() ==> is_whitespace(#[trigger] text@[i])),
    {
        let r = parse_text(text);
        proof {
            lemma_parse_producible(text@);
            lemma_failure_within(text@);
            lemma_empty_input(text@);
        }
        r
    }
}

/// Gives the characters of `text` to the recognizers, one by one.
fn parse_text(text: &str) -> (r: Result<Json, ParseError>)
    ensures
        match r {
            Ok(j) => parse_spec(text@) == Ok::<Value, ParseError>(j@),
            Err(e) => parse_spec(text@) == Err::<Value, ParseError>(e),
        },
        text@.len() <= usize::MAX,
{
    let total: usize = text.unicode_len();
    let mut root: Option<Root> = None;
    let mut at: usize = 0;
    for c in it: text.chars()
        invariant
            it.seq() == text@,
            at == it.index(),
            total == text@.len(),
            match root {
                None => parse_spec(text@) == scan(text@, at as int),
                Some(r) => parse_spec(text@) == run_value(r.state(), text@, at as int),
            },
    {
        at = at + 1;
        match &mut root {
            None => {
                match judgment_json_type_option(c) {
                    Ok(None) => {},
                    Ok(Some(kind)) => {
                        proof {
                            lemma_begun(c);
                        }
                        root = Some(Root::begin(kind));
                    },
                    Err(kind) => {
                        return Err(ParseError { at, kind });
                    },
                }
            },
            Some(context) => {
                match context.feed(c) {
                    Ok(None) => {},
                    Ok(Some(value)) => {
                        return Ok(value);
                    },
                    Err(kind) => {
                        return Err(ParseError { at, kind });
                    },
                }
            },
        }
    }
    match root {
        None => Err(ParseError { at: total, kind: ErrorKind::EmptyInput }),
        Some(context) => match context.end() {
            Ok(value) => Ok(value),
            Err(kind) => Err(ParseError { at: total, kind }),
        },
    }
}

} // verus!
