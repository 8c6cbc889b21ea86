//! The recognizer of an array: values separated by commas, up to the
//! closing bracket.

use vstd::prelude::*;
use crate::error::{ErrorKind, Expected};
use crate::lexis::whitespace;
use crate::literal::{FalseMode, NullMode, TrueMode};
use crate::machine::{
    array_after, array_opened, array_step, judgment_json_type, ArrayPhase, ArrayState, Keyword,
    ValueState,
};
use crate::number::NumberContext;
use crate::object::ObjectContext;
use crate::string::StringContext;
use crate::value::{values_of, Json, Value};

verus! {

/// The recognizer of an array: the items completed so far, and the step.
pub struct ArrayContext {
    arr: Vec<Json>,
    mode: ArrayMode,
}

/// The step of an array recognizer. While an item is in progress the step
/// holds the recognizer of that item.
pub enum ArrayMode {
    /// An item must begin.
    JudgmentType,
    Null(NullMode),
    JsonTrue(TrueMode),
    JsonFalse(FalseMode),
    NumberContext(NumberContext),
    String(StringContext),
    Array(Box<ArrayContext>),
    Object(Box<ObjectContext>),
    /// An item is complete: a comma or the closing bracket comes next.
    Douhao,
    /// The closing bracket has been taken.
    End,
}

impl ArrayMode {
    /// The step that this mode stands for.
    pub open spec fn phase(self) -> ArrayPhase
        decreases self,
    {
        match self {
            ArrayMode::JudgmentType => ArrayPhase::ExpectValue,
            ArrayMode::Null(m) => ArrayPhase::InValue(
                ValueState::Literal(Keyword::Null, m.position()),
            ),
            ArrayMode::JsonTrue(m) => ArrayPhase::InValue(
                ValueState::Literal(Keyword::True, m.position()),
            ),
            ArrayMode::JsonFalse(m) => ArrayPhase::InValue(
                ValueState::Literal(Keyword::False, m.position()),
            ),
            ArrayMode::NumberContext(n) => ArrayPhase::InValue(ValueState::Number(n@)),
            ArrayMode::String(s) => ArrayPhase::InValue(ValueState::String(s@)),
            ArrayMode::Array(a) => ArrayPhase::InValue(ValueState::Array(Box::new(a.state()))),
            ArrayMode::Object(o) => ArrayPhase::InValue(ValueState::Object(Box::new(o.state()))),
            ArrayMode::Douhao => ArrayPhase::AfterValue,
            ArrayMode::End => ArrayPhase::End,
        }
    }
}

impl View for ArrayContext {
    type V = ArrayState;

    open spec fn view(&self) -> ArrayState {
        self.state()
    }
}

impl ArrayContext {
    /// The array in progress that the recognizer stands for.
    pub closed spec fn state(self) -> ArrayState
        decreases self,
    {
        ArrayState { items: values_of(self.arr@), phase: self.mode.phase() }
    }

    /// The step at which the recognizer stands.
    pub fn get_mode_ptr<'a>(&'a self) -> (r: &'a ArrayMode)
        ensures
            r.phase() == self@.phase,
    {
        &self.mode
    }

    /// Tells whether the closing bracket has been taken.
    pub fn finished(&self) -> (r: bool)
        ensures
            r == (self@.phase is End),
    {
        match self.mode {
            ArrayMode::End => true,
            _ => false,
        }
    }

    /// A copy of the items completed so far.
    pub fn get_arr(&self) -> (r: Vec<Json>)
        ensures
            values_of(r@) == self@.items,
    {
        let mut copy: Vec<Json> = Vec::new();
        let mut i: usize = 0;
        while i < self.arr.len()
            invariant
                i <= self.arr.len(),
                copy@.len() == i,
                forall|k: int| 0 <= k < i ==> (#[trigger] copy@[k])@ == self.arr@[k]@,
            decreases self.arr.len() - i,
        {
            copy.push(self.arr[i].clone());
            i = i + 1;
        }
        assert(values_of(copy@) =~= values_of(self.arr@));
        copy
    }

    /// The array of the items completed so far.
    pub fn into_json(self) -> (r: Json)
        ensures
            r@ == Value::Array(self@.items),
    {
        let r = Json::Array(self.arr);
        r
    }

    /// A recognizer that has taken the opening bracket and waits for the
    /// first item.
    pub fn new_judgment_type() -> (r: ArrayContext)
        ensures
            r@ == array_opened(),
    {
        let r = ArrayContext { arr: Vec::new(), mode: ArrayMode::JudgmentType };
        assert(r@.items =~= Seq::empty());
        r
    }

    /// Adds a completed item.
    fn push(&mut self, item: Json)
        ensures
            final(self)@.items == old(self)@.items.push(item@),
            final(self).mode == old(self).mode,
    {
        self.arr.push(item);
        assert(values_of(self.arr@) =~= values_of(old(self).arr@).push(item@));
    }

    /// Takes the character that follows a completed item.
    fn after_value(&mut self, c: char) -> (r: Result<(), ErrorKind>)
        ensures
            final(self)@ == array_after(old(self)@.items, c).0,
            r == array_after(old(self)@.items, c).1,
    {
        if c == ',' {
            self.mode = ArrayMode::JudgmentType;
            Ok(())
        } else if whitespace(c) {
            self.mode = ArrayMode::Douhao;
            Ok(())
        } else if c == ']' {
            self.mode = ArrayMode::End;
            Ok(())
        } else {
            self.mode = ArrayMode::Douhao;
            Err(ErrorKind::UnexpectedCharacter(Expected::CommaOrEnd))
        }
    }

    /// Takes one character.
    pub fn check_array(&mut self, c: char) -> (r: Result<(), ErrorKind>)
        ensures
            final(self)@ == array_step(old(self)@, c).0,
            r == array_step(old(self)@, c).1,
        decreases *old(self),
    {
        match &mut self.mode {
            ArrayMode::JudgmentType => {
                if whitespace(c) {
                    Ok(())
                } else {
                    match judgment_json_type(c) {
                        Ok(Json::Null) => {
                            self.mode = ArrayMode::Null(NullMode::u);
                            Ok(())
                        },
                        Ok(Json::Boolean(b)) => {
                            if b {
                                self.mode = ArrayMode::JsonTrue(TrueMode::r);
                            } else {
                                self.mode = ArrayMode::JsonFalse(FalseMode::a);
                            }
                            Ok(())
                        },
                        Ok(Json::Number(first)) => {
                            self.mode = ArrayMode::NumberContext(
                                NumberContext::new_from_str(first.as_str()),
                            );
                            Ok(())
                        },
                        Ok(Json::String(_)) => {
                            self.mode = ArrayMode::String(StringContext::opened());
                            Ok(())
                        },
                        Ok(Json::Object(_)) => {
                            self.mode = ArrayMode::Object(Box::new(ObjectContext::new_key()));
                            Ok(())
                        },
                        Ok(Json::Array(_)) => {
                            self.mode = ArrayMode::Array(
                                Box::new(ArrayContext::new_judgment_type()),
                            );
                            Ok(())
                        },
                        Err(e) => Err(e),
                    }
                }
            },
            ArrayMode::Null(context) => {
                match context.check_null(c) {
                    Ok(done) => {
                        if done {
                            self.mode = ArrayMode::Douhao;
                            self.push(Json::Null);
                        }
                        Ok(())
                    },
                    Err(e) => Err(e),
                }
            },
            ArrayMode::JsonTrue(context) => {
                match context.check_true(c) {
                    Ok(done) => {
                        if done {
                            self.mode = ArrayMode::Douhao;
                            self.push(Json::Boolean(true));
                        }
                        Ok(())
                    },
                    Err(e) => Err(e),
                }
            },
            ArrayMode::JsonFalse(context) => {
                match context.check_false(c) {
                    Ok(done) => {
                        if done {
                            self.mode = ArrayMode::Douhao;
                            self.push(Json::Boolean(false));
                        }
                        Ok(())
                    },
                    Err(e) => Err(e),
                }
            },
            ArrayMode::NumberContext(context) => {
                match context.feed(c) {
                    Ok(ended) => {
                        if ended {
                            let number = Json::Number(context.get_number());
                            self.mode = ArrayMode::Douhao;
                            self.push(number);
                            self.after_value(c)
                        } else {
                            Ok(())
                        }
                    },
                    Err(e) => Err(e),
                }
            },
            ArrayMode::String(context) => {
                match context.check_string(c) {
                    Ok(()) => {
                        if context.finished() {
                            let text = Json::String(String::from_str(context.get_str()));
                            self.mode = ArrayMode::Douhao;
                            self.push(text);
                        }
                        Ok(())
                    },
                    Err(e) => Err(e),
                }
            },
            ArrayMode::Array(context) => {
                match context.check_array(c) {
                    Ok(()) => {
                        if context.finished() {
                            let mut done = ArrayMode::Douhao;
                            std::mem::swap(&mut self.mode, &mut done);
                            if let ArrayMode::Array(inner) = done {
                                self.push((*inner).into_json());
                            }
                        }
                        Ok(())
                    },
                    Err(e) => Err(e),
                }
            },
            ArrayMode::Object(context) => {
                match context.check_object(c) {
                    Ok(()) => {
                        if context.finished() {
                            let mut done = ArrayMode::Douhao;
                            std::mem::swap(&mut self.mode, &mut done);
                            if let ArrayMode::Object(inner) = done {
                                self.push((*inner).into_json());
                            }
                        }
                        Ok(())
                    },
                    Err(e) => Err(e),
                }
            },
            ArrayMode::Douhao => self.after_value(c),
            ArrayMode::End => Err(ErrorKind::ReenteredTerminalState),
        }
    }
}

} // verus!
