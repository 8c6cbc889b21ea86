//! The value tree of a document.
//!
//! `Json` is the tree that a program holds; `Value` is the same tree as the
//! specifications speak of it. A number is the text of its decimal literal.
//! An object is the sequence of its members in the order in which their names
//! first appeared, with no name twice.

use vstd::prelude::*;
use vstd::string::StringExecFns;
use crate::lexis::is_number_start;
use crate::number::is_decimal_literal;

verus! {

/// A value of a document, as the specifications speak of it.
pub ghost enum Value {
    Null,
    Boolean(bool),
    /// The text of the number's literal.
    Number(Seq<char>),
    String(Seq<char>),
    /// The members, each a name and its value.
    Object(Seq<(Seq<char>, Value)>),
    Array(Seq<Value>),
}

/// A value of a document.
#[derive(Debug, PartialEq)]
pub enum Json {
    Null,
    Boolean(bool),
    /// A number, as the text of its decimal literal.
    Number(String),
    String(String),
    /// The members, each a name and its value.
    Object(Vec<(String, Json)>),
    Array(Vec<Json>),
}

impl Json {
    /// The value that the tree stands for.
    pub open spec fn value(self) -> Value
        decreases self,
    {
        match self {
            Json::Null => Value::Null,
            Json::Boolean(b) => Value::Boolean(b),
            Json::Number(text) => Value::Number(text@),
            Json::String(text) => Value::String(text@),
            Json::Object(members) => Value::Object(members_of(members@)),
            Json::Array(items) => Value::Array(values_of(items@)),
        }
    }
}

/// The values that a sequence of trees stands for.
pub open spec fn values_of(items: Seq<Json>) -> Seq<Value>
    decreases items,
{
    Seq::new(
        items.len(),
        |i: int|
            if 0 <= i < items.len() {
                items[i].value()
            } else {
                Value::Null
            },
    )
}

/// The members that a sequence of named trees stands for.
pub open spec fn members_of(members: Seq<(String, Json)>) -> Seq<(Seq<char>, Value)>
    decreases members,
{
    Seq::new(
        members.len(),
        |i: int|
            if 0 <= i < members.len() {
                (members[i].0@, members[i].1.value())
            } else {
                (Seq::<char>::empty(), Value::Null)
            },
    )
}

impl View for Json {
    type V = Value;

    open spec fn view(&self) -> Value {
        self.value()
    }
}

/// No name stands twice among the members.
pub open spec fn names_distinct(members: Seq<(Seq<char>, Value)>) -> bool {
    forall|i: int, j: int|
        0 <= i < j < members.len() ==> (#[trigger] members[i]).0 != (#[trigger] members[j]).0
}

/// The member at `i` is the first that is named `name`.
pub open spec fn first_named(members: Seq<(Seq<char>, Value)>, name: Seq<char>, i: int) -> bool {
    &&& 0 <= i < members.len()
    &&& members[i].0 == name
    &&& forall|j: int| 0 <= j < i ==> (#[trigger] members[j]).0 != name
}

/// The place of the first member named `name`, if there is one.
pub open spec fn place_of(members: Seq<(Seq<char>, Value)>, name: Seq<char>) -> Option<int> {
    if exists|i: int| first_named(members, name, i) {
        Some(choose|i: int| first_named(members, name, i))
    } else {
        None
    }
}

/// The members with `name` bound to `value`: in the place that the name
/// already has, or else behind all others.
pub open spec fn with_member(
    members: Seq<(Seq<char>, Value)>,
    name: Seq<char>,
    value: Value,
) -> Seq<(Seq<char>, Value)> {
    match place_of(members, name) {
        Some(i) => members.update(i, (name, value)),
        None => members.push((name, value)),
    }
}

/// The value bound to `name` among the members: that of the first member
/// of that name, if there is one.
pub open spec fn value_of(members: Seq<(Seq<char>, Value)>, name: Seq<char>) -> Option<Value> {
    match place_of(members, name) {
        Some(i) => Some(members[i].1),
        None => None,
    }
}

/// The first member of a name is the only first member of that name.
pub proof fn lemma_first_named_unique(
    members: Seq<(Seq<char>, Value)>,
    name: Seq<char>,
    i: int,
)
    requires
        first_named(members, name, i),
    ensures
        place_of(members, name) == Some(i),
{
    let p = choose|p: int| first_named(members, name, p);
    if p < i {
        assert(members[p].0 != name);
    }
    if i < p {
        assert(members[i].0 != name);
    }
}

/// Binding a name makes the value the one bound to the name, whatever was
/// bound to it before, and leaves every other name with what it had.
pub proof fn lemma_with_member_binds(
    members: Seq<(Seq<char>, Value)>,
    name: Seq<char>,
    value: Value,
    other: Seq<char>,
)
    ensures
        value_of(with_member(members, name, value), name) == Some(value),
        other != name ==> value_of(with_member(members, name, value), other) == value_of(
            members,
            other,
        ),
{
    let after = with_member(members, name, value);
    match place_of(members, name) {
        Some(p) => {
            assert(first_named(members, name, p));
            assert(first_named(after, name, p)) by {
                assert forall|j: int| 0 <= j < p implies (#[trigger] after[j]).0 != name by {
                    assert(members[j].0 != name);
                }
            }
            lemma_first_named_unique(after, name, p);
        },
        None => {
            let p = members.len() as int;
            assert(first_named(after, name, p)) by {
                assert forall|j: int| 0 <= j < p implies (#[trigger] after[j]).0 != name by {
                    lemma_absent(members, name, j);
                }
            }
            lemma_first_named_unique(after, name, p);
        },
    }
    if other != name {
        match place_of(members, other) {
            Some(q) => {
                assert(first_named(members, other, q));
                assert(first_named(after, other, q)) by {
                    assert forall|j: int| 0 <= j < q implies (#[trigger] after[j]).0 != other by {
                        assert(members[j].0 != other);
                    }
                }
                lemma_first_named_unique(after, other, q);
                assert(after[q].1 == members[q].1);
            },
            None => {
                assert forall|j: int| !first_named(after, other, j) by {
                    if 0 <= j < after.len() && j < members.len() {
                        lemma_absent(members, other, j);
                    }
                }
            },
        }
    }
}

impl Json {
    /// The value bound to `name`, where the tree is an object that has a
    /// member of that name.
    pub fn get(&self, name: &str) -> (r: Option<&Json>)
        ensures
            match self@ {
                Value::Object(members) => match value_of(members, name@) {
                    Some(v) => r matches Some(j) && j@ == v,
                    None => r is None,
                },
                _ => r is None,
            },
    {
        match self {
            Json::Object(members) => {
                let key = String::from_str(name);
                let ghost all = members_of(members@);
                let mut i: usize = 0;
                while i < members.len()
                    invariant
                        i <= members.len(),
                        key@ == name@,
                        all == members_of(members@),
                        self@ == Value::Object(all),
                        forall|j: int| 0 <= j < i ==> (#[trigger] all[j]).0 != name@,
                    decreases members.len() - i,
                {
                    if members[i].0 == key {
                        proof {
                            assert(all[i as int].0 == name@);
                            assert(first_named(all, name@, i as int));
                            lemma_first_named_unique(all, name@, i as int);
                        }
                        return Some(&members[i].1);
                    }
                    i = i + 1;
                }
                proof {
                    assert forall|k: int| !first_named(all, name@, k) by {
                        if 0 <= k < all.len() {
                            assert(all[k].0 != name@);
                        }
                    }
                }
                None
            },
            _ => None,
        }
    }
}

impl Value {
    /// The tree keeps to what its type cannot say: every number in it is a
    /// decimal literal, and no object in it holds a name twice.
    pub open spec fn well_formed(self) -> bool
        decreases self,
    {
        match self {
            Value::Number(text) => is_decimal_literal(text),
            Value::Object(members) => {
                &&& names_distinct(members)
                &&& forall|i: int|
                    0 <= i < members.len() ==> (#[trigger] members[i]).1.well_formed()
            },
            Value::Array(items) => forall|i: int|
                0 <= i < items.len() ==> (#[trigger] items[i]).well_formed(),
            _ => true,
        }
    }
}

impl Value {
    /// The tree is one that the parse of a text may give: it is well formed,
    /// every number in it begins with a digit or a minus sign, and every
    /// array and object in it holds something.
    pub open spec fn producible(self) -> bool
        decreases self,
    {
        match self {
            Value::Number(text) => is_decimal_literal(text) && text.len() > 0 && is_number_start(
                text[0],
            ),
            Value::Object(members) => {
                &&& members.len() > 0
                &&& names_distinct(members)
                &&& forall|i: int|
                    0 <= i < members.len() ==> (#[trigger] members[i]).1.producible()
            },
            Value::Array(items) => {
                &&& items.len() > 0
                &&& forall|i: int| 0 <= i < items.len() ==> (#[trigger] items[i]).producible()
            },
            _ => true,
        }
    }
}

/// A tree that a parse may give is well formed.
pub proof fn lemma_producible_well_formed(v: Value)
    requires
        v.producible(),
    ensures
        v.well_formed(),
    decreases v,
{
    match v {
        Value::Object(members) => {
            assert forall|i: int| 0 <= i < members.len() implies (
            #[trigger] members[i]).1.well_formed() by {
                lemma_producible_well_formed(members[i].1);
            }
        },
        Value::Array(items) => {
            assert forall|i: int| 0 <= i < items.len() implies (
            #[trigger] items[i]).well_formed() by {
                lemma_producible_well_formed(items[i]);
            }
        },
        _ => {},
    }
}

/// Where no member is the first of a name, no member has the name.
pub proof fn lemma_absent(members: Seq<(Seq<char>, Value)>, name: Seq<char>, i: int)
    requires
        place_of(members, name) is None,
        0 <= i < members.len(),
    ensures
        members[i].0 != name,
    decreases i,
{
    if members[i].0 == name {
        if forall|j: int| 0 <= j < i ==> (#[trigger] members[j]).0 != name {
            assert(first_named(members, name, i));
        } else {
            let j = choose|j: int| 0 <= j < i && (#[trigger] members[j]).0 == name;
            lemma_absent(members, name, j);
        }
    }
}

/// Binding a name keeps the names distinct.
pub proof fn lemma_with_member_distinct(
    members: Seq<(Seq<char>, Value)>,
    name: Seq<char>,
    value: Value,
)
    requires
        names_distinct(members),
    ensures
        names_distinct(with_member(members, name, value)),
{
    let after = with_member(members, name, value);
    match place_of(members, name) {
        Some(p) => {
            assert(first_named(members, name, p));
            assert forall|i: int, j: int| 0 <= i < j < after.len() implies (#[trigger] after[i]).0
                != (#[trigger] after[j]).0 by {
                assert(members[i].0 != members[j].0);
            }
        },
        None => {
            assert forall|i: int, j: int| 0 <= i < j < after.len() implies (#[trigger] after[i]).0
                != (#[trigger] after[j]).0 by {
                if j < members.len() {
                    assert(members[i].0 != members[j].0);
                } else {
                    lemma_absent(members, name, i);
                }
            }
        },
    }
}

impl Clone for Json {
    /// A copy of the whole tree.
    #[verifier::loop_isolation(false)]
    fn clone(&self) -> (r: Json)
        ensures
            r@ == self@,
        decreases self,
    {
        match self {
            Json::Null => Json::Null,
            Json::Boolean(b) => Json::Boolean(*b),
            Json::Number(text) => Json::Number(text.clone()),
            Json::String(text) => Json::String(text.clone()),
            Json::Object(members) => {
                let mut copy: Vec<(String, Json)> = Vec::new();
                let mut i: usize = 0;
                while i < members.len()
                    invariant
                        i <= members.len(),
                        copy@.len() == i,
                        forall|k: int|
                            0 <= k < i ==> (#[trigger] copy@[k]).0@ == members@[k].0@
                                && copy@[k].1@ == members@[k].1@,
                    decreases members.len() - i,
                {
                    let name = members[i].0.clone();
                    let value = members[i].1.clone();
                    copy.push((name, value));
                    i = i + 1;
                }
                assert(members_of(copy@) =~= members_of(members@));
                Json::Object(copy)
            },
            Json::Array(items) => {
                let mut copy: Vec<Json> = Vec::new();
                let mut i: usize = 0;
                while i < items.len()
                    invariant
                        i <= items.len(),
                        copy@.len() == i,
                        forall|k: int| 0 <= k < i ==> (#[trigger] copy@[k])@ == items@[k]@,
                    decreases items.len() - i,
                {
                    let item = items[i].clone();
                    copy.push(item);
                    i = i + 1;
                }
                assert(values_of(copy@) =~= values_of(items@));
                Json::Array(copy)
            },
        }
    }
}

} // verus!
