//! The text of a value reads back as the value.
//!
//! This holds of every value that a parse may give, but for one thing: the
//! text of a string is not escaped, so the strings and names in the value
//! must hold no character that needs an escape. A string that holds a quote
//! gives a text in which the string ends at that quote.

use vstd::prelude::*;
use crate::error::{ErrorKind, ParseError};
use crate::feed::{
    array_feed, array_holding, lemma_array_as_value, lemma_array_carries,
    lemma_array_feed_concat, lemma_object_as_value, lemma_object_carries,
    lemma_object_feed_concat, lemma_run_completes, lemma_run_reaches_end,
    lemma_value_feed_concat, object_feed, object_holding, value_feed,
};
use crate::lexis::{is_number_char, is_number_start, is_raw_control, is_sign, is_whitespace};
use crate::machine::{
    array_after, array_opened, array_step, dispatch, object_after, object_opened, object_step,
    string_fresh, value_step, ArrayPhase, ArrayState, Keyword, ObjectPhase, ObjectState, Outcome,
    ValueState,
};
use crate::number::{
    all_digits, is_decimal_literal, is_exponent, is_mantissa, is_unsigned_literal,
    lemma_mantissa_head,
};
use crate::parse::{parse_spec, run_value, scan};
use crate::sound::lemma_parse_producible;
use crate::render::{item_texts, join, lemma_join_next, member_texts};
use crate::string::{StringPhase, StringState};
use crate::value::{first_named, names_distinct, place_of, with_member, Value};

verus! {

/// A character that stands for itself inside a string.
pub open spec fn is_plain_char(c: char) -> bool {
    c != '"' && c != '\\' && !is_raw_control(c)
}

/// A text of characters that stand for themselves inside a string.
pub open spec fn is_plain_text(text: Seq<char>) -> bool {
    forall|i: int| 0 <= i < text.len() ==> is_plain_char(#[trigger] text[i])
}

impl Value {
    /// The text of the value says all that the value holds: the value is
    /// one that a parse may give, and its strings and names are plain.
    pub open spec fn reads_back(self) -> bool
        decreases self,
    {
        match self {
            Value::Null => true,
            Value::Boolean(_) => true,
            Value::Number(text) => is_decimal_literal(text) && text.len() > 0 && is_number_start(
                text[0],
            ),
            Value::String(text) => is_plain_text(text),
            Value::Object(members) => {
                &&& members.len() > 0
                &&& names_distinct(members)
                &&& forall|i: int|
                    0 <= i < members.len() ==> is_plain_text((#[trigger] members[i]).0)
                        && members[i].1.reads_back()
            },
            Value::Array(items) => {
                &&& items.len() > 0
                &&& forall|i: int| 0 <= i < items.len() ==> (#[trigger] items[i]).reads_back()
            },
        }
    }

    /// No string and no name in the value holds a character that needs an
    /// escape.
    pub open spec fn plain(self) -> bool
        decreases self,
    {
        match self {
            Value::String(text) => is_plain_text(text),
            Value::Object(members) => forall|i: int|
                0 <= i < members.len() ==> is_plain_text((#[trigger] members[i]).0)
                    && members[i].1.plain(),
            Value::Array(items) => forall|i: int|
                0 <= i < items.len() ==> (#[trigger] items[i]).plain(),
            _ => true,
        }
    }

    /// What the run of the value's text behind its first character comes to:
    /// a number is still in progress with all of its text collected, and any
    /// other value is complete.
    pub open spec fn run_outcome(self) -> Outcome {
        match self {
            Value::Number(text) => Outcome::Pending(ValueState::Number(text)),
            _ => Outcome::Done(self),
        }
    }
}

/// A mantissa is made of characters of a number.
proof fn lemma_mantissa_chars(s: Seq<char>)
    requires
        is_mantissa(s),
    ensures
        forall|i: int| 0 <= i < s.len() ==> is_number_char(#[trigger] s[i]),
{
    if !(s.len() > 0 && all_digits(s)) {
        let k = choose|k: int|
            0 <= k < s.len() && s.len() > 1 && #[trigger] s[k] == '.' && all_digits(s.take(k))
                && all_digits(s.skip(k + 1));
        assert forall|i: int| 0 <= i < s.len() implies is_number_char(#[trigger] s[i]) by {
            if i < k {
                assert(s.take(k)[i] == s[i]);
            } else if i > k {
                assert(s.skip(k + 1)[i - k - 1] == s[i]);
            }
        }
    }
}

/// An exponent is made of characters of a number.
proof fn lemma_exponent_chars(s: Seq<char>)
    requires
        is_exponent(s),
    ensures
        forall|i: int| 0 <= i < s.len() ==> is_number_char(#[trigger] s[i]),
{
    assert forall|i: int| 0 <= i < s.len() implies is_number_char(#[trigger] s[i]) by {
        if i >= 2 {
            if is_sign(s[1]) {
                assert(s.skip(2)[i - 2] == s[i]);
            } else {
                assert(s.skip(1)[i - 1] == s[i]);
            }
        } else if i == 1 {
            if !is_sign(s[1]) {
                assert(s.skip(1)[0] == s[1]);
            }
        }
    }
}

/// A mantissa with its exponent is made of characters of a number.
proof fn lemma_unsigned_chars(s: Seq<char>)
    requires
        is_unsigned_literal(s),
    ensures
        forall|i: int| 0 <= i < s.len() ==> is_number_char(#[trigger] s[i]),
{
    if is_mantissa(s) {
        lemma_mantissa_chars(s);
    } else {
        let k = choose|k: int|
            0 < k < s.len() && is_mantissa(#[trigger] s.take(k)) && is_exponent(s.skip(k));
        lemma_mantissa_chars(s.take(k));
        lemma_exponent_chars(s.skip(k));
        assert forall|i: int| 0 <= i < s.len() implies is_number_char(#[trigger] s[i]) by {
            if i < k {
                assert(s.take(k)[i] == s[i]);
            } else {
                assert(s.skip(k)[i - k] == s[i]);
            }
        }
    }
}

/// A decimal literal is made of characters of a number, and holds one at least.
pub proof fn lemma_literal_chars(s: Seq<char>)
    requires
        is_decimal_literal(s),
    ensures
        s.len() > 0,
        forall|i: int| 0 <= i < s.len() ==> is_number_char(#[trigger] s[i]),
{
    if is_unsigned_literal(s) {
        lemma_unsigned_chars(s);
        if is_mantissa(s) {
            lemma_mantissa_head(s);
        }
    } else {
        lemma_unsigned_chars(s.skip(1));
        assert forall|i: int| 0 <= i < s.len() implies is_number_char(#[trigger] s[i]) by {
            if i > 0 {
                assert(s.skip(1)[i - 1] == s[i]);
            }
        }
    }
}

/// A number in progress collects every character of a number.
proof fn lemma_number_run(buffer: Seq<char>, text: Seq<char>)
    requires
        forall|i: int| 0 <= i < text.len() ==> is_number_char(#[trigger] text[i]),
    ensures
        value_feed(ValueState::Number(buffer), text) == Some(
            Outcome::Pending(ValueState::Number(buffer + text)),
        ),
    decreases text.len(),
{
    if text.len() == 0 {
        assert(buffer + text =~= buffer);
    } else {
        assert(is_number_char(text[0]));
        let next = buffer.push(text[0]);
        lemma_number_run(next, text.drop_first());
        assert(next + text.drop_first() =~= buffer + text);
    }
}

/// A string in its body takes a plain text as it is, and the quote behind it
/// completes the string.
proof fn lemma_string_run(before: Seq<char>, text: Seq<char>)
    requires
        is_plain_text(text),
    ensures
        value_feed(
            ValueState::String(StringState { text: before, phase: StringPhase::Body }),
            text.push('"'),
        ) == Some(Outcome::Done(Value::String(before + text))),
    decreases text.len(),
{
    let whole = text.push('"');
    if text.len() == 0 {
        assert(before + text =~= before);
    } else {
        assert(is_plain_char(text[0]));
        assert(whole[0] == text[0]);
        assert(whole.drop_first() =~= text.drop_first().push('"'));
        let next = before.push(text[0]);
        lemma_string_run(next, text.drop_first());
        assert(next + text.drop_first() =~= before + text);
    }
}

/// An object takes the name of a member between quotes, and stands before
/// the colon with that name.
proof fn lemma_name_run(
    members: Seq<(Seq<char>, Value)>,
    held: Seq<char>,
    before: Seq<char>,
    text: Seq<char>,
)
    requires
        is_plain_text(text),
    ensures
        object_feed(
            ObjectState {
                members,
                name: held,
                phase: ObjectPhase::Key(StringState { text: before, phase: StringPhase::Body }),
            },
            text.push('"'),
        ) == Some(ObjectState { members, name: before + text, phase: ObjectPhase::Colon }),
    decreases text.len(),
{
    let whole = text.push('"');
    let o = ObjectState {
        members,
        name: held,
        phase: ObjectPhase::Key(StringState { text: before, phase: StringPhase::Body }),
    };
    if text.len() == 0 {
        assert(before + text =~= before);
        let (next, r) = object_step(o, whole[0]);
        assert(object_feed(next, whole.drop_first()) == Some(next));
    } else {
        assert(is_plain_char(text[0]));
        assert(whole[0] == text[0]);
        assert(whole.drop_first() =~= text.drop_first().push('"'));
        let next = before.push(text[0]);
        lemma_name_run(members, held, next, text.drop_first());
        assert(next + text.drop_first() =~= before + text);
    }
}

/// The letters of a keyword behind its first complete the keyword.
proof fn lemma_keyword_run(k: Keyword)
    ensures
        value_feed(ValueState::Literal(k, 1), k.word().drop_first()) == Some(
            Outcome::Done(k.value()),
        ),
{
    let w = k.word();
    let t1 = w.drop_first();
    let t2 = t1.drop_first();
    let t3 = t2.drop_first();
    assert(t1[0] == w[1]);
    assert(t2[0] == w[2]);
    assert(t3[0] == w[3]);
    let s1 = ValueState::Literal(k, 1);
    let s2 = ValueState::Literal(k, 2);
    let s3 = ValueState::Literal(k, 3);
    assert(value_step(s1, t1[0]) == Outcome::Pending(s2));
    assert(value_step(s2, t2[0]) == Outcome::Pending(s3));
    match k {
        Keyword::False => {
            let t4 = t3.drop_first();
            assert(t4[0] == w[4]);
            let s4 = ValueState::Literal(k, 4);
            assert(value_step(s3, t3[0]) == Outcome::Pending(s4));
            assert(value_step(s4, t4[0]) == Outcome::Done(k.value()));
            assert(value_feed(s4, t4) == Some(Outcome::Done(k.value())));
            assert(value_feed(s3, t3) == Some(Outcome::Done(k.value())));
        },
        _ => {
            assert(value_step(s3, t3[0]) == Outcome::Done(k.value()));
            assert(value_feed(s3, t3) == Some(Outcome::Done(k.value())));
        },
    }
    assert(value_feed(s2, t2) == Some(Outcome::Done(k.value())));
}

/// A name that no member before the `k`th has is bound behind them.
proof fn lemma_new_member(members: Seq<(Seq<char>, Value)>, k: int)
    requires
        names_distinct(members),
        0 <= k < members.len(),
    ensures
        with_member(members.take(k), members[k].0, members[k].1) == members.take(k + 1),
{
    let before = members.take(k);
    let name = members[k].0;
    assert forall|i: int| !first_named(before, name, i) by {
        if 0 <= i < before.len() {
            assert(before[i] == members[i]);
            assert(members[i].0 != members[k].0);
        }
    }
    assert(place_of(before, name) is None);
    assert(before.push((name, members[k].1)) =~= members.take(k + 1));
}

/// The texts of the first `k` pieces of a container, each with a comma behind it.
pub open spec fn pieces_before(pieces: Seq<Seq<char>>, k: int) -> Seq<char> {
    if k <= 0 {
        Seq::empty()
    } else {
        join(pieces.take(k)).push(',')
    }
}

/// The pieces before the next one are those before this one, this one and a comma.
proof fn lemma_pieces_before(pieces: Seq<Seq<char>>, k: int)
    requires
        0 <= k < pieces.len(),
    ensures
        pieces_before(pieces, k + 1) == pieces_before(pieces, k) + pieces[k].push(','),
        join(pieces.take(k + 1)).push(']') == pieces_before(pieces, k) + pieces[k].push(']'),
        join(pieces.take(k + 1)).push('}') == pieces_before(pieces, k) + pieces[k].push('}'),
{
    lemma_join_next(pieces, k);
    assert(pieces_before(pieces, k + 1) =~= pieces_before(pieces, k) + pieces[k].push(','));
    assert(join(pieces.take(k + 1)).push(']') =~= pieces_before(pieces, k) + pieces[k].push(']'));
    assert(join(pieces.take(k + 1)).push('}') =~= pieces_before(pieces, k) + pieces[k].push('}'));
}

/// The text of a value begins with a character that begins a value of its
/// kind, and the run of the rest of the text comes to the value.
pub proof fn lemma_value_run(v: Value)
    requires
        v.reads_back(),
    ensures
        v.rendered().len() > 0,
        !is_whitespace(v.rendered()[0]),
        dispatch(v.rendered()[0]) is Some,
        value_feed(dispatch(v.rendered()[0])->0, v.rendered().drop_first()) == Some(
            v.run_outcome(),
        ),
    decreases v, 0nat, 0nat,
{
    let text = v.rendered();
    let rest = text.drop_first();
    match v {
        Value::Null => {
            lemma_keyword_run(Keyword::Null);
        },
        Value::Boolean(b) => {
            if b {
                lemma_keyword_run(Keyword::True);
            } else {
                lemma_keyword_run(Keyword::False);
            }
        },
        Value::Number(literal) => {
            lemma_literal_chars(literal);
            assert forall|i: int| 0 <= i < rest.len() implies is_number_char(
                #[trigger] rest[i],
            ) by {
                assert(rest[i] == literal[i + 1]);
            }
            lemma_number_run(seq![literal[0]], rest);
            assert(seq![literal[0]] + rest =~= literal);
        },
        Value::String(body) => {
            assert(text[0] == '"');
            assert(rest =~= body.push('"'));
            lemma_string_run(Seq::empty(), body);
            assert(Seq::<char>::empty() + body =~= body);
        },
        Value::Array(items) => {
            assert(text[0] == '[');
            assert(rest =~= join(item_texts(items)).push(']'));
            lemma_array_closes(items);
            lemma_array_as_value(array_opened(), rest);
        },
        Value::Object(members) => {
            assert(text[0] == '{');
            assert(rest =~= join(member_texts(members)).push('}'));
            lemma_object_closes(members);
            lemma_object_as_value(object_opened(), rest);
        },
    }
}

/// An array takes the texts of all its items, with the commas between them
/// and the closing bracket, and holds the items.
pub proof fn lemma_array_closes(items: Seq<Value>)
    requires
        items.len() > 0,
        forall|i: int| 0 <= i < items.len() ==> (#[trigger] items[i]).reads_back(),
    ensures
        array_feed(array_opened(), join(item_texts(items)).push(']')) == Some(
            ArrayState { items, phase: ArrayPhase::End },
        ),
    decreases items, items.len(), 0nat,
{
    let pieces = item_texts(items);
    let n = items.len() as int;
    assert(pieces.take(n) =~= pieces);
    lemma_array_run(items, n - 1);
    lemma_pieces_before(pieces, n - 1);
    lemma_array_feed_concat(array_opened(), pieces_before(pieces, n - 1), pieces[n - 1].push(']'));
    lemma_array_item(items.take(n - 1), items[n - 1], ']');
    assert(items.take(n - 1).push(items[n - 1]) =~= items);
}

/// An object takes the texts of all its members, with the commas between
/// them and the closing brace, and holds the members.
pub proof fn lemma_object_closes(members: Seq<(Seq<char>, Value)>)
    requires
        members.len() > 0,
        names_distinct(members),
        forall|i: int|
            0 <= i < members.len() ==> is_plain_text((#[trigger] members[i]).0)
                && members[i].1.reads_back(),
    ensures
        object_feed(object_opened(), join(member_texts(members)).push('}')) == Some(
            ObjectState { members, name: Seq::empty(), phase: ObjectPhase::End },
        ),
    decreases members, members.len(), 2nat,
{
    let pieces = member_texts(members);
    let n = members.len() as int;
    assert(pieces.take(n) =~= pieces);
    lemma_object_run(members, n - 1);
    lemma_pieces_before(pieces, n - 1);
    lemma_object_feed_concat(
        object_opened(),
        pieces_before(pieces, n - 1),
        pieces[n - 1].push('}'),
    );
    lemma_object_member(members, n - 1, '}');
    assert(members.take(n) =~= members);
}

/// An array that waits for an item takes the text of a value and the comma
/// or bracket behind it, and holds the value as its next item.
pub proof fn lemma_array_item(items: Seq<Value>, v: Value, d: char)
    requires
        v.reads_back(),
        d == ',' || d == ']',
    ensures
        array_feed(
            ArrayState { items, phase: ArrayPhase::ExpectValue },
            v.rendered().push(d),
        ) == Some(array_after(items.push(v), d).0),
    decreases v, 0nat, 1nat,
{
    lemma_value_run(v);
    let text = v.rendered();
    let rest = text.drop_first();
    let whole = text.push(d);
    let s = dispatch(text[0])->0;
    let a = ArrayState { items, phase: ArrayPhase::ExpectValue };
    assert(whole[0] == text[0]);
    assert(whole.drop_first() =~= rest.push(d));
    assert(array_step(a, whole[0]) == (array_holding(items, s), Ok::<(), ErrorKind>(())));
    let holding = array_holding(items, s);
    let tail = rest.push(d);
    assert(tail =~= rest + seq![d]);
    assert(tail.last() == d);
    match v {
        Value::Number(literal) => {
            let pending = ValueState::Number(literal);
            lemma_value_feed_concat(s, rest, seq![d]);
            assert(value_step(pending, d) == Outcome::Ended(v));
            assert(value_feed(pending, seq![d]) == Some(Outcome::Ended(v)));
            lemma_array_carries(items, s, tail);
        },
        _ => {
            assert(rest.len() > 0);
            lemma_array_carries(items, s, rest);
            lemma_array_feed_concat(holding, rest, seq![d]);
            let after = ArrayState { items: items.push(v), phase: ArrayPhase::AfterValue };
            let (next, r) = array_step(after, d);
            assert(array_feed(next, seq![d].drop_first()) == Some(next));
            assert(array_feed(after, seq![d]) == Some(array_after(items.push(v), d).0));
        },
    }
}

/// An array takes the texts of its first `k` items, each with its comma, and
/// waits for the next item.
pub proof fn lemma_array_run(items: Seq<Value>, k: int)
    requires
        0 <= k < items.len(),
        forall|i: int| 0 <= i < items.len() ==> (#[trigger] items[i]).reads_back(),
    ensures
        array_feed(array_opened(), pieces_before(item_texts(items), k)) == Some(
            ArrayState { items: items.take(k), phase: ArrayPhase::ExpectValue },
        ),
    decreases items, k, 0nat,
{
    let pieces = item_texts(items);
    if k == 0 {
        assert(items.take(0) =~= Seq::empty());
    } else {
        lemma_array_run(items, k - 1);
        lemma_pieces_before(pieces, k - 1);
        lemma_array_feed_concat(
            array_opened(),
            pieces_before(pieces, k - 1),
            pieces[k - 1].push(','),
        );
        lemma_array_item(items.take(k - 1), items[k - 1], ',');
        assert(items.take(k - 1).push(items[k - 1]) =~= items.take(k));
    }
}

/// An object that waits for a name takes the text of its `k`th member and the
/// comma or brace behind it, and holds the member behind those before it.
pub proof fn lemma_object_member(members: Seq<(Seq<char>, Value)>, k: int, d: char)
    requires
        0 <= k < members.len(),
        names_distinct(members),
        forall|i: int|
            0 <= i < members.len() ==> is_plain_text((#[trigger] members[i]).0)
                && members[i].1.reads_back(),
        d == ',' || d == '}',
    ensures
        object_feed(
            ObjectState {
                members: members.take(k),
                name: Seq::empty(),
                phase: ObjectPhase::Key(string_fresh()),
            },
            member_texts(members)[k].push(d),
        ) == Some(object_after(members.take(k + 1), d).0),
    decreases members, k, 0nat,
{
    let before = members.take(k);
    let name = members[k].0;
    let v = members[k].1;
    assert(is_plain_text(name) && v.reads_back());
    lemma_value_run(v);
    lemma_new_member(members, k);
    let text = v.rendered();
    let rest = text.drop_first();
    let s = dispatch(text[0])->0;
    let whole = member_texts(members)[k].push(d);
    let o = ObjectState { members: before, name: Seq::empty(), phase: ObjectPhase::Key(string_fresh()) };
    let opened = ObjectState {
        members: before,
        name: Seq::empty(),
        phase: ObjectPhase::Key(StringState { text: Seq::empty(), phase: StringPhase::Body }),
    };
    let named = ObjectState { members: before, name, phase: ObjectPhase::Colon };
    let waiting = ObjectState { members: before, name, phase: ObjectPhase::ExpectValue };
    let holding = object_holding(before, name, s);
    let tail = rest.push(d);
    // the quote, the name and its quote, the colon, the first character of the value, the rest
    let part1 = seq!['"'];
    let part2 = name.push('"');
    let part3 = seq![':'];
    let part4 = seq![text[0]];
    assert(whole =~= part1 + (part2 + (part3 + (part4 + tail))));
    assert(object_feed(o, part1) == Some(opened)) by {
        let (next, r) = object_step(o, part1[0]);
        assert(next == opened);
        assert(object_feed(next, part1.drop_first()) == Some(next));
    }
    lemma_object_feed_concat(o, part1, part2 + (part3 + (part4 + tail)));
    lemma_name_run(before, Seq::empty(), Seq::empty(), name);
    assert(Seq::<char>::empty() + name =~= name);
    lemma_object_feed_concat(opened, part2, part3 + (part4 + tail));
    assert(object_feed(named, part3) == Some(waiting)) by {
        let (next, r) = object_step(named, part3[0]);
        assert(next == waiting);
        assert(object_feed(next, part3.drop_first()) == Some(next));
    }
    lemma_object_feed_concat(named, part3, part4 + tail);
    assert(object_feed(waiting, part4) == Some(holding)) by {
        let (next, r) = object_step(waiting, part4[0]);
        assert(next == holding);
        assert(object_feed(next, part4.drop_first()) == Some(next));
    }
    lemma_object_feed_concat(waiting, part4, tail);
    assert(tail =~= rest + seq![d]);
    assert(tail.last() == d);
    match v {
        Value::Number(literal) => {
            let pending = ValueState::Number(literal);
            lemma_value_feed_concat(s, rest, seq![d]);
            assert(value_step(pending, d) == Outcome::Ended(v));
            assert(value_feed(pending, seq![d]) == Some(Outcome::Ended(v)));
            lemma_object_carries(before, name, s, tail);
        },
        _ => {
            assert(rest.len() > 0);
            lemma_object_carries(before, name, s, rest);
            lemma_object_feed_concat(holding, rest, seq![d]);
            let after = ObjectState {
                members: members.take(k + 1),
                name: Seq::empty(),
                phase: ObjectPhase::AfterValue,
            };
            let (next, r) = object_step(after, d);
            assert(object_feed(next, seq![d].drop_first()) == Some(next));
            assert(object_feed(after, seq![d]) == Some(object_after(members.take(k + 1), d).0));
        },
    }
}

/// An object takes the texts of its first `k` members, each with its comma,
/// and waits for the next name.
pub proof fn lemma_object_run(members: Seq<(Seq<char>, Value)>, k: int)
    requires
        0 <= k < members.len(),
        names_distinct(members),
        forall|i: int|
            0 <= i < members.len() ==> is_plain_text((#[trigger] members[i]).0)
                && members[i].1.reads_back(),
    ensures
        object_feed(object_opened(), pieces_before(member_texts(members), k)) == Some(
            ObjectState {
                members: members.take(k),
                name: Seq::empty(),
                phase: ObjectPhase::Key(string_fresh()),
            },
        ),
    decreases members, k, 1nat,
{
    let pieces = member_texts(members);
    if k == 0 {
        assert(members.take(0) =~= Seq::empty());
    } else {
        lemma_object_run(members, k - 1);
        lemma_pieces_before(pieces, k - 1);
        lemma_object_feed_concat(
            object_opened(),
            pieces_before(pieces, k - 1),
            pieces[k - 1].push(','),
        );
        lemma_object_member(members, k - 1, ',');
    }
}

/// The parse of the text of a value gives the value.
pub proof fn lemma_text_reads_back(v: Value)
    requires
        v.reads_back(),
    ensures
        parse_spec(v.rendered()) == Ok::<Value, ParseError>(v),
{
    lemma_value_run(v);
    let text = v.rendered();
    let s = dispatch(text[0])->0;
    assert(text.subrange(1, text.len() as int) =~= text.drop_first());
    assert(scan(text, 0) == run_value(s, text, 1));
    match v {
        Value::Number(literal) => {
            lemma_run_reaches_end(s, text, 1, ValueState::Number(literal));
        },
        _ => {
            lemma_run_completes(s, text, 1, text.len() as int, v);
        },
    }
}

/// A value that a parse may give, with plain strings and names, is one
/// whose text says all that it holds.
pub proof fn lemma_plain_reads_back(v: Value)
    requires
        v.producible(),
        v.plain(),
    ensures
        v.reads_back(),
    decreases v,
{
    match v {
        Value::Object(members) => {
            assert forall|i: int| 0 <= i < members.len() implies is_plain_text(
                (#[trigger] members[i]).0,
            ) && members[i].1.reads_back() by {
                lemma_plain_reads_back(members[i].1);
            }
        },
        Value::Array(items) => {
            assert forall|i: int| 0 <= i < items.len() implies (#[trigger] items[i]).reads_back() by {
                lemma_plain_reads_back(items[i]);
            }
        },
        _ => {},
    }
}

/// For a value that a parse may give and that holds no character in need of
/// an escape: the parse of its text gives the value, so that rendering,
/// parsing and rendering again gives the text of the first rendering.
pub proof fn lemma_round_trip(v: Value)
    requires
        v.producible(),
        v.plain(),
    ensures
        parse_spec(v.rendered()) == Ok::<Value, ParseError>(v),
        parse_spec(v.rendered()) matches Ok(w) && w.rendered() == v.rendered(),
{
    lemma_plain_reads_back(v);
    lemma_text_reads_back(v);
}

/// What the parse of a text gives, rendered, reads back as what the parse
/// gave, where it holds no character in need of an escape.
pub proof fn lemma_parsed_round_trip(text: Seq<char>)
    requires
        parse_spec(text) matches Ok(v) && v.plain(),
    ensures
        parse_spec(text) matches Ok(v) && parse_spec(v.rendered()) == Ok::<Value, ParseError>(v),
{
    lemma_parse_producible(text);
    lemma_round_trip(parse_spec(text)->Ok_0);
}

} // verus!
