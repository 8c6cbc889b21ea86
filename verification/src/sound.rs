//! What a parse gives is a tree that a parse may give: every number in it
//! is a decimal literal that begins as a number does, no object in it holds a
//! name twice, and no array or object in it is empty.

use vstd::prelude::*;
use crate::lexis::{is_number_start, is_whitespace};
use crate::machine::{
    array_step, dispatch, object_step, value_step, ArrayPhase, ArrayState, ObjectPhase,
    ObjectState, Outcome, ValueState,
};
use crate::parse::{parse_spec, run_value, scan};
use crate::value::{
    lemma_producible_well_formed, lemma_with_member_distinct, names_distinct, place_of,
    with_member, Value,
};

verus! {

/// Every value is one that a parse may give.
pub open spec fn all_producible(items: Seq<Value>) -> bool {
    forall|i: int| 0 <= i < items.len() ==> (#[trigger] items[i]).producible()
}

/// The members have distinct names, and values that a parse may give.
pub open spec fn members_producible(members: Seq<(Seq<char>, Value)>) -> bool {
    &&& names_distinct(members)
    &&& forall|i: int| 0 <= i < members.len() ==> (#[trigger] members[i]).1.producible()
}

impl ValueState {
    /// All that the value in progress has completed so far is what a parse
    /// may give, and a number in progress has begun as a number does.
    pub open spec fn sound(self) -> bool
        decreases self,
    {
        match self {
            ValueState::Number(buffer) => buffer.len() > 0 && is_number_start(buffer[0]),
            ValueState::Array(a) => a.sound(),
            ValueState::Object(o) => o.sound(),
            _ => true,
        }
    }
}

impl ArrayState {
    /// The items completed so far are what a parse may give, and so is what
    /// the item in progress has completed; behind an item the array holds one.
    pub open spec fn sound(self) -> bool
        decreases self,
    {
        &&& all_producible(self.items)
        &&& self.phase matches ArrayPhase::InValue(s) ==> s.sound()
        &&& self.phase is AfterValue || self.phase is End ==> self.items.len() > 0
    }
}

impl ObjectState {
    /// The members completed so far are what a parse may give, and so is
    /// what the value in progress has completed; behind a member the object
    /// holds one.
    pub open spec fn sound(self) -> bool
        decreases self,
    {
        &&& members_producible(self.members)
        &&& self.phase matches ObjectPhase::InValue(s) ==> s.sound()
        &&& self.phase is AfterValue || self.phase is End ==> self.members.len() > 0
    }
}

/// Binding a name to a value that a parse may give keeps the members so.
pub proof fn lemma_with_member_producible(
    members: Seq<(Seq<char>, Value)>,
    name: Seq<char>,
    value: Value,
)
    requires
        members_producible(members),
        value.producible(),
    ensures
        members_producible(with_member(members, name, value)),
        with_member(members, name, value).len() > 0,
{
    lemma_with_member_distinct(members, name, value);
    let after = with_member(members, name, value);
    assert forall|i: int| 0 <= i < after.len() implies (#[trigger] after[i]).1.producible() by {
        match place_of(members, name) {
            Some(p) => {
                if i != p {
                    assert(members[i].1.producible());
                }
            },
            None => {
                if i < members.len() {
                    assert(members[i].1.producible());
                }
            },
        }
    }
}

/// A value that has just begun has completed nothing.
pub proof fn lemma_dispatch_sound(c: char)
    ensures
        dispatch(c) matches Some(s) ==> s.sound(),
{
}

/// One character keeps a value in progress sound, and a value that it
/// completes is one that a parse may give.
pub proof fn lemma_value_step_sound(s: ValueState, c: char)
    requires
        s.sound(),
    ensures
        match value_step(s, c) {
            Outcome::Fault(next, _) => next.sound(),
            Outcome::Pending(next) => next.sound(),
            Outcome::Done(v) => v.producible(),
            Outcome::Ended(v) => v.producible(),
        },
    decreases s,
{
    match s {
        ValueState::Array(a) => {
            lemma_array_step_sound(*a, c);
        },
        ValueState::Object(o) => {
            lemma_object_step_sound(*o, c);
        },
        _ => {},
    }
}

/// One character keeps an array in progress sound.
pub proof fn lemma_array_step_sound(a: ArrayState, c: char)
    requires
        a.sound(),
    ensures
        array_step(a, c).0.sound(),
    decreases a,
{
    match a.phase {
        ArrayPhase::ExpectValue => {
            lemma_dispatch_sound(c);
        },
        ArrayPhase::InValue(s) => {
            lemma_value_step_sound(s, c);
            match value_step(s, c) {
                Outcome::Done(v) => {
                    lemma_push_producible(a.items, v);
                },
                Outcome::Ended(v) => {
                    lemma_push_producible(a.items, v);
                },
                _ => {},
            }
        },
        _ => {},
    }
}

/// One item more keeps the items what a parse may give, where the item is.
pub proof fn lemma_push_producible(items: Seq<Value>, v: Value)
    requires
        all_producible(items),
        v.producible(),
    ensures
        all_producible(items.push(v)),
{
    let after = items.push(v);
    assert forall|i: int| 0 <= i < after.len() implies (#[trigger] after[i]).producible() by {
        if i < items.len() {
            assert(items[i].producible());
        }
    }
}

/// One character keeps an object in progress sound.
pub proof fn lemma_object_step_sound(o: ObjectState, c: char)
    requires
        o.sound(),
    ensures
        object_step(o, c).0.sound(),
    decreases o,
{
    match o.phase {
        ObjectPhase::ExpectValue => {
            lemma_dispatch_sound(c);
        },
        ObjectPhase::InValue(s) => {
            lemma_value_step_sound(s, c);
            match value_step(s, c) {
                Outcome::Done(v) => {
                    lemma_with_member_producible(o.members, o.name, v);
                },
                Outcome::Ended(v) => {
                    lemma_with_member_producible(o.members, o.name, v);
                },
                _ => {},
            }
        },
        _ => {},
    }
}

/// The value that a run gives, begun from a sound state, is one that a parse
/// may give.
pub proof fn lemma_run_producible(s: ValueState, text: Seq<char>, from: int)
    requires
        s.sound(),
        run_value(s, text, from) is Ok,
    ensures
        run_value(s, text, from)->Ok_0.producible(),
    decreases text.len() - from,
{
    if 0 <= from < text.len() {
        lemma_value_step_sound(s, text[from]);
        match value_step(s, text[from]) {
            Outcome::Pending(next) => {
                lemma_run_producible(next, text, from + 1);
            },
            _ => {},
        }
    }
}

/// The value that a scan gives is one that a parse may give.
proof fn lemma_scan_producible(text: Seq<char>, from: int)
    requires
        scan(text, from) is Ok,
    ensures
        scan(text, from)->Ok_0.producible(),
    decreases text.len() - from,
{
    if 0 <= from < text.len() {
        if is_whitespace(text[from]) {
            lemma_scan_producible(text, from + 1);
        } else {
            lemma_dispatch_sound(text[from]);
            match dispatch(text[from]) {
                Some(s) => {
                    lemma_run_producible(s, text, from + 1);
                },
                None => {},
            }
        }
    }
}

/// The value that a parse gives is one that a parse may give, and so it is
/// well formed.
pub proof fn lemma_parse_producible(text: Seq<char>)
    ensures
        parse_spec(text) matches Ok(v) ==> v.producible() && v.well_formed(),
{
    if parse_spec(text) is Ok {
        lemma_scan_producible(text, 0);
        lemma_producible_well_formed(parse_spec(text)->Ok_0);
    }
}

} // verus!
