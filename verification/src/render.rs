//! The text of a value: the keywords as they are, a number as its literal,
//! a string between quotes with its characters as they are, and the items of
//! an array and the members of an object between their brackets, with commas
//! between them.

use vstd::prelude::*;
use vstd::string::StringExecFns;
use crate::literal::{false_word, null_word, true_word};
use crate::value::{members_of, values_of, Json, Value};

verus! {

/// The pieces one after another, with a comma between each two.
pub open spec fn join(pieces: Seq<Seq<char>>) -> Seq<char>
    decreases pieces.len(),
{
    if pieces.len() == 0 {
        Seq::empty()
    } else if pieces.len() == 1 {
        pieces[0]
    } else {
        join(pieces.drop_last()) + seq![','] + pieces.last()
    }
}

/// The text between quotes.
pub open spec fn quoted(text: Seq<char>) -> Seq<char> {
    seq!['"'] + text + seq!['"']
}

impl Value {
    /// The text of the value.
    pub open spec fn rendered(self) -> Seq<char>
        decreases self,
    {
        match self {
            Value::Null => null_word(),
            Value::Boolean(b) => if b {
                true_word()
            } else {
                false_word()
            },
            Value::Number(text) => text,
            Value::String(text) => quoted(text),
            Value::Object(members) => seq!['{'] + join(member_texts(members)) + seq!['}'],
            Value::Array(items) => seq!['['] + join(item_texts(items)) + seq![']'],
        }
    }
}

/// The texts of the items of an array.
pub open spec fn item_texts(items: Seq<Value>) -> Seq<Seq<char>>
    decreases items,
{
    Seq::new(
        items.len(),
        |i: int|
            if 0 <= i < items.len() {
                items[i].rendered()
            } else {
                Seq::<char>::empty()
            },
    )
}

/// The texts of the members of an object: of each its name between quotes,
/// a colon, and its value.
pub open spec fn member_texts(members: Seq<(Seq<char>, Value)>) -> Seq<Seq<char>>
    decreases members,
{
    Seq::new(
        members.len(),
        |i: int|
            if 0 <= i < members.len() {
                quoted(members[i].0) + seq![':'] + members[i].1.rendered()
            } else {
                Seq::<char>::empty()
            },
    )
}

/// Joining one piece more adds a comma, unless it is the first, and the piece.
pub proof fn lemma_join_next(pieces: Seq<Seq<char>>, n: int)
    requires
        0 <= n < pieces.len(),
    ensures
        join(pieces.take(n + 1)) == if n == 0 {
            pieces[n]
        } else {
            join(pieces.take(n)) + seq![','] + pieces[n]
        },
{
    let upto = pieces.take(n + 1);
    assert(upto.last() == pieces[n]);
    assert(upto[0] == pieces[0]);
    assert(upto.drop_last() =~= pieces.take(n));
}

/// Adds `text` between quotes to `out`.
fn render_quoted(text: &str, out: &mut String)
    ensures
        final(out)@ == old(out)@ + quoted(text@),
{
    out.push('"');
    out.append(text);
    out.push('"');
    assert(out@ =~= old(out)@ + quoted(text@));
}

/// Adds the texts of `items`, with commas between them, to `out`.
fn render_items(items: &Vec<Json>, out: &mut String)
    ensures
        final(out)@ == old(out)@ + join(item_texts(values_of(items@))),
    decreases items,
{
    let ghost pieces = item_texts(values_of(items@));
    let mut i: usize = 0;
    assert(pieces.take(0) =~= Seq::empty());
    assert(out@ =~= old(out)@ + join(pieces.take(0)));
    while i < items.len()
        invariant
            i <= items.len(),
            pieces == item_texts(values_of(items@)),
            pieces.len() == items.len(),
            out@ == old(out)@ + join(pieces.take(i as int)),
        decreases items.len() - i,
    {
        if i > 0 {
            out.push(',');
        }
        items[i].render_into(out);
        proof {
            lemma_join_next(pieces, i as int);
            assert(pieces[i as int] == items@[i as int]@.rendered());
            assert(out@ =~= old(out)@ + join(pieces.take(i + 1)));
        }
        i = i + 1;
    }
    assert(pieces.take(i as int) =~= pieces);
}

/// Adds the texts of `members`, with commas between them, to `out`.
fn render_members(members: &Vec<(String, Json)>, out: &mut String)
    ensures
        final(out)@ == old(out)@ + join(member_texts(members_of(members@))),
    decreases members,
{
    let ghost pieces = member_texts(members_of(members@));
    let mut i: usize = 0;
    assert(pieces.take(0) =~= Seq::empty());
    assert(out@ =~= old(out)@ + join(pieces.take(0)));
    while i < members.len()
        invariant
            i <= members.len(),
            pieces == member_texts(members_of(members@)),
            pieces.len() == members.len(),
            out@ == old(out)@ + join(pieces.take(i as int)),
        decreases members.len() - i,
    {
        if i > 0 {
            out.push(',');
        }
        render_quoted(members[i].0.as_str(), out);
        out.push(':');
        members[i].1.render_into(out);
        proof {
            lemma_join_next(pieces, i as int);
            assert(pieces[i as int] == quoted(members@[i as int].0@) + seq![':']
                + members@[i as int].1@.rendered());
            assert(out@ =~= old(out)@ + join(pieces.take(i + 1)));
        }
        i = i + 1;
    }
    assert(pieces.take(i as int) =~= pieces);
}

impl Json {
    /// Adds the text of the value to `out`.
    fn render_into(&self, out: &mut String)
        ensures
            final(out)@ == old(out)@ + self@.rendered(),
        decreases self,
    {
        match self {
            Json::Null => {
                out.push('n');
                out.push('u');
                out.push('l');
                out.push('l');
                assert(out@ =~= old(out)@ + null_word());
            },
            Json::Boolean(b) => {
                if *b {
                    out.push('t');
                    out.push('r');
                    out.push('u');
                    out.push('e');
                    assert(out@ =~= old(out)@ + true_word());
                } else {
                    out.push('f');
                    out.push('a');
                    out.push('l');
                    out.push('s');
                    out.push('e');
                    assert(out@ =~= old(out)@ + false_word());
                }
            },
            Json::Number(text) => {
                out.append(text.as_str());
            },
            Json::String(text) => {
                render_quoted(text.as_str(), out);
            },
            Json::Object(members) => {
                out.push('{');
                render_members(members, out);
                out.push('}');
                assert(out@ =~= old(out)@ + self@.rendered());
            },
            Json::Array(items) => {
                out.push('[');
                render_items(items, out);
                out.push(']');
                assert(out@ =~= old(out)@ + self@.rendered());
            },
        }
    }

    /// The text of the value.
    pub fn to_string(&self) -> (r: String)
        ensures
            r@ == self@.rendered(),
    {
        let mut out = String::new();
        self.render_into(&mut out);
        assert(out@ =~= self@.rendered());
        out
    }
}

} // verus!
