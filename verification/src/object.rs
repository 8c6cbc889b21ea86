//! The recognizer of an object: members separated by commas, each a name,
//! a colon and a value, up to the closing brace.
//!
//! A name that comes again gives its member a new value: the member keeps
//! its place and only the last value stays.

use vstd::prelude::*;
use crate::array::ArrayContext;
use crate::error::{ErrorKind, Expected};
use crate::lexis::whitespace;
use crate::literal::{FalseMode, NullMode, TrueMode};
use crate::machine::{
    judgment_json_type, object_after, object_opened, object_step, Keyword, ObjectPhase,
    ObjectState, ValueState,
};
use crate::number::NumberContext;
use crate::string::StringContext;
use crate::value::{
    first_named, lemma_first_named_unique, members_of, place_of, with_member, Json, Value,
};

verus! {

/// The recognizer of an object: the members completed so far, the step, and
/// the name of the member in progress.
pub struct ObjectContext {
    obj: Vec<(String, Json)>,
    mode: ObjectMode,
    key_tmp: String,
}

/// The step of an object recognizer. While a name or a value is in
/// progress the step holds its recognizer.
pub enum ObjectMode {
    /// The name of a member is in progress.
    Key(StringContext),
    /// The name is complete: the colon comes next.
    Maohao,
    /// The member's value must begin.
    Value,
    ValueNull(NullMode),
    ValueTrue(TrueMode),
    ValueFalse(FalseMode),
    ValueString(StringContext),
    ValueArray(ArrayContext),
    ValueNumber(NumberContext),
    ValueObject(Box<ObjectContext>),
    /// A member is complete: a comma or the closing brace comes next.
    Douhao,
    /// The closing brace has been taken.
    End,
}

impl ObjectMode {
    /// The step that this mode stands for.
    pub open spec fn phase(self) -> ObjectPhase
        decreases self,
    {
        match self {
            ObjectMode::Key(s) => ObjectPhase::Key(s@),
            ObjectMode::Maohao => ObjectPhase::Colon,
            ObjectMode::Value => ObjectPhase::ExpectValue,
            ObjectMode::ValueNull(m) => ObjectPhase::InValue(
                ValueState::Literal(Keyword::Null, m.position()),
            ),
            ObjectMode::ValueTrue(m) => ObjectPhase::InValue(
                ValueState::Literal(Keyword::True, m.position()),
            ),
            ObjectMode::ValueFalse(m) => ObjectPhase::InValue(
                ValueState::Literal(Keyword::False, m.position()),
            ),
            ObjectMode::ValueString(s) => ObjectPhase::InValue(ValueState::String(s@)),
            ObjectMode::ValueArray(a) => ObjectPhase::InValue(
                ValueState::Array(Box::new(a.state())),
            ),
            ObjectMode::ValueNumber(n) => ObjectPhase::InValue(ValueState::Number(n@)),
            ObjectMode::ValueObject(o) => ObjectPhase::InValue(
                ValueState::Object(Box::new(o.state())),
            ),
            ObjectMode::Douhao => ObjectPhase::AfterValue,
            ObjectMode::End => ObjectPhase::End,
        }
    }
}

impl View for ObjectContext {
    type V = ObjectState;

    open spec fn view(&self) -> ObjectState {
        self.state()
    }
}

/// Binds `name` to `value` among `members`: in the place of the first member
/// of that name, or else behind all others.
pub fn insert_member(members: &mut Vec<(String, Json)>, name: String, value: Json)
    ensures
        members_of(final(members)@) == with_member(members_of(old(members)@), name@, value@),
{
    let ghost before = members_of(members@);
    let mut i: usize = 0;
    while i < members.len()
        invariant
            i <= members.len(),
            members@ == old(members)@,
            forall|j: int| 0 <= j < i ==> (#[trigger] before[j]).0 != name@,
            before == members_of(members@),
        decreases members.len() - i,
    {
        if members[i].0 == name {
            assert(before[i as int].0 == name@);
            proof {
                assert(first_named(before, name@, i as int));
                lemma_first_named_unique(before, name@, i as int);
            }
            members[i] = (name, value);
            assert(members_of(members@) =~= before.update(i as int, (name@, value@)));
            return ;
        }
        i = i + 1;
    }
    assert(place_of(before, name@) is None) by {
        assert forall|k: int| !first_named(before, name@, k) by {
            if 0 <= k < before.len() {
                assert(before[k].0 != name@);
            }
        }
    }
    members.push((name, value));
    assert(members_of(members@) =~= before.push((name@, value@)));
}

impl ObjectContext {
    /// The object in progress that the recognizer stands for.
    pub closed spec fn state(self) -> ObjectState
        decreases self,
    {
        ObjectState {
            members: members_of(self.obj@),
            name: self.key_tmp@,
            phase: self.mode.phase(),
        }
    }

    /// The step at which the recognizer stands.
    pub fn get_mode_ptr<'a>(&'a self) -> (r: &'a ObjectMode)
        ensures
            r.phase() == self@.phase,
    {
        &self.mode
    }

    /// Tells whether the closing brace has been taken.
    pub fn finished(&self) -> (r: bool)
        ensures
            r == (self@.phase is End),
    {
        match self.mode {
            ObjectMode::End => true,
            _ => false,
        }
    }

    /// A copy of the object of the members completed so far.
    pub fn get_json(&self) -> (r: Json)
        ensures
            r@ == Value::Object(self@.members),
    {
        let mut copy: Vec<(String, Json)> = Vec::new();
        let mut i: usize = 0;
        while i < self.obj.len()
            invariant
                i <= self.obj.len(),
                copy@.len() == i,
                forall|k: int|
                    0 <= k < i ==> (#[trigger] copy@[k]).0@ == self.obj@[k].0@ && copy@[k].1@
                        == self.obj@[k].1@,
            decreases self.obj.len() - i,
        {
            let name = self.obj[i].0.clone();
            let value = self.obj[i].1.clone();
            copy.push((name, value));
            i = i + 1;
        }
        assert(members_of(copy@) =~= members_of(self.obj@));
        let r = Json::Object(copy);
        r
    }

    /// The object of the members completed so far.
    pub fn into_json(self) -> (r: Json)
        ensures
            r@ == Value::Object(self@.members),
    {
        let r = Json::Object(self.obj);
        r
    }

    /// A recognizer that has taken the opening brace and waits for the first
    /// member's name.
    pub fn new_key() -> (r: ObjectContext)
        ensures
            r@ == object_opened(),
    {
        let r = ObjectContext {
            obj: Vec::new(),
            mode: ObjectMode::Key(StringContext::new()),
            key_tmp: String::new(),
        };
        assert(r@.members =~= Seq::empty());
        r
    }

    /// Completes the member in progress with `value`.
    fn insert(&mut self, value: Json)
        ensures
            final(self)@.members == with_member(old(self)@.members, old(self)@.name, value@),
            final(self)@.name == Seq::<char>::empty(),
            final(self).mode == old(self).mode,
    {
        let mut name = String::new();
        std::mem::swap(&mut name, &mut self.key_tmp);
        insert_member(&mut self.obj, name, value);
    }

    /// Takes the character that follows a completed member.
    fn after_value(&mut self, c: char) -> (r: Result<(), ErrorKind>)
        requires
            old(self)@.name == Seq::<char>::empty(),
        ensures
            final(self)@ == object_after(old(self)@.members, c).0,
            r == object_after(old(self)@.members, c).1,
    {
        if c == ',' {
            self.mode = ObjectMode::Key(StringContext::new());
            Ok(())
        } else if whitespace(c) {
            self.mode = ObjectMode::Douhao;
            Ok(())
        } else if c == '}' {
            self.mode = ObjectMode::End;
            Ok(())
        } else {
            self.mode = ObjectMode::Douhao;
            Err(ErrorKind::UnexpectedCharacter(Expected::CommaOrEnd))
        }
    }

    /// Takes one character.
    pub fn check_object(&mut self, c: char) -> (r: Result<(), ErrorKind>)
        ensures
            final(self)@ == object_step(old(self)@, c).0,
            r == object_step(old(self)@, c).1,
        decreases *old(self),
    {
        match &mut self.mode {
            ObjectMode::Key(context) => {
                match context.check_string(c) {
                    Ok(()) => {
                        if context.finished() {
                            self.key_tmp = String::from_str(context.get_str());
                            self.mode = ObjectMode::Maohao;
                        }
                        Ok(())
                    },
                    Err(e) => Err(e),
                }
            },
            ObjectMode::Maohao => {
                if c == ':' {
                    self.mode = ObjectMode::Value;
                    Ok(())
                } else if whitespace(c) {
                    Ok(())
                } else {
                    Err(ErrorKind::UnexpectedCharacter(Expected::Colon))
                }
            },
            ObjectMode::Value => {
                if whitespace(c) {
                    Ok(())
                } else {
                    match judgment_json_type(c) {
                        Ok(Json::Null) => {
                            self.mode = ObjectMode::ValueNull(NullMode::u);
                            Ok(())
                        },
                        Ok(Json::Boolean(b)) => {
                            self.mode = if b {
                                ObjectMode::ValueTrue(TrueMode::r)
                            } else {
                                ObjectMode::ValueFalse(FalseMode::a)
                            };
                            Ok(())
                        },
                        Ok(Json::Number(first)) => {
                            self.mode = ObjectMode::ValueNumber(
                                NumberContext::new_from_str(first.as_str()),
                            );
                            Ok(())
                        },
                        Ok(Json::String(_)) => {
                            self.mode = ObjectMode::ValueString(StringContext::opened());
                            Ok(())
                        },
                        Ok(Json::Object(_)) => {
                            self.mode = ObjectMode::ValueObject(
                                Box::new(ObjectContext::new_key()),
                            );
                            Ok(())
                        },
                        Ok(Json::Array(_)) => {
                            self.mode = ObjectMode::ValueArray(ArrayContext::new_judgment_type());
                            Ok(())
                        },
                        Err(e) => Err(e),
                    }
                }
            },
            ObjectMode::ValueNull(context) => {
                match context.check_null(c) {
                    Ok(done) => {
                        if done {
                            self.mode = ObjectMode::Douhao;
                            self.insert(Json::Null);
                        }
                        Ok(())
                    },
                    Err(e) => Err(e),
                }
            },
            ObjectMode::ValueTrue(context) => {
                match context.check_true(c) {
                    Ok(done) => {
                        if done {
                            self.mode = ObjectMode::Douhao;
                            self.insert(Json::Boolean(true));
                        }
                        Ok(())
                    },
                    Err(e) => Err(e),
                }
            },
            ObjectMode::ValueFalse(context) => {
                match context.check_false(c) {
                    Ok(done) => {
                        if done {
                            self.mode = ObjectMode::Douhao;
                            self.insert(Json::Boolean(false));
                        }
                        Ok(())
                    },
                    Err(e) => Err(e),
                }
            },
            ObjectMode::ValueString(context) => {
                match context.check_string(c) {
                    Ok(()) => {
                        if context.finished() {
                            let text = Json::String(String::from_str(context.get_str()));
                            self.mode = ObjectMode::Douhao;
                            self.insert(text);
                        }
                        Ok(())
                    },
                    Err(e) => Err(e),
                }
            },
            ObjectMode::ValueArray(context) => {
                match context.check_array(c) {
                    Ok(()) => {
                        if context.finished() {
                            let mut done = ObjectMode::Douhao;
                            std::mem::swap(&mut self.mode, &mut done);
                            if let ObjectMode::ValueArray(inner) = done {
                                self.insert(inner.into_json());
                            }
                        }
                        Ok(())
                    },
                    Err(e) => Err(e),
                }
            },
            ObjectMode::ValueNumber(context) => {
                match context.feed(c) {
                    Ok(ended) => {
                        if ended {
                            let number = Json::Number(context.get_number());
                            self.mode = ObjectMode::Douhao;
                            self.insert(number);
                            self.after_value(c)
                        } else {
                            Ok(())
                        }
                    },
                    Err(e) => Err(e),
                }
            },
            ObjectMode::ValueObject(context) => {
                match context.check_object(c) {
                    Ok(()) => {
                        if context.finished() {
                            let mut done = ObjectMode::Douhao;
                            std::mem::swap(&mut self.mode, &mut done);
                            if let ObjectMode::ValueObject(inner) = done {
                                self.insert((*inner).into_json());
                            }
                        }
                        Ok(())
                    },
                    Err(e) => Err(e),
                }
            },
            ObjectMode::Douhao => {
                self.key_tmp = String::new();
                self.after_value(c)
            },
            ObjectMode::End => Err(ErrorKind::ReenteredTerminalState),
        }
    }
}

} // verus!
