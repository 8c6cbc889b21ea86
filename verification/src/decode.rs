//! What the escapes of a string stand for, stated over whole escapes rather
//! than character by character.

use vstd::prelude::*;
use crate::lexis::hex_value;
use crate::string::{
    escaped, is_high_surrogate, is_low_surrogate, string_step, surrogate_pair, StringPhase,
    StringState,
};

verus! {

/// The string after all of `text`, where it takes every character of it.
pub open spec fn string_feed(s: StringState, text: Seq<char>) -> Option<StringState>
    decreases text.len(),
{
    if text.len() == 0 {
        Some(s)
    } else {
        let (next, r) = string_step(s, text[0]);
        if r is Ok {
            string_feed(next, text.drop_first())
        } else {
            None
        }
    }
}

/// A string in its body that has decoded `text`.
pub open spec fn in_body(text: Seq<char>) -> StringState {
    StringState { text, phase: StringPhase::Body }
}

/// The code unit that four hexadecimal digits give; `None` where `digits`
/// are not four hexadecimal digits.
pub open spec fn code_unit(digits: Seq<char>) -> Option<int> {
    if digits.len() == 4 && hex_value(digits[0]) is Some && hex_value(digits[1]) is Some
        && hex_value(digits[2]) is Some && hex_value(digits[3]) is Some {
        Some(
            hex_value(digits[0])->0 * 0x1000 + hex_value(digits[1])->0 * 0x100 + hex_value(
                digits[2],
            )->0 * 0x10 + hex_value(digits[3])->0,
        )
    } else {
        None
    }
}

/// Feeding a string one character is one step of it.
pub proof fn lemma_string_feed_one(s: StringState, c: char)
    ensures
        string_feed(s, seq![c]) == if string_step(s, c).1 is Ok {
            Some(string_step(s, c).0)
        } else {
            None
        },
{
    let text = seq![c];
    assert(text[0] == c);
    let (next, r) = string_step(s, c);
    if r is Ok {
        assert(string_feed(next, text.drop_first()) == Some(next));
    }
}

/// Feeding a string two characters is two steps of it.
pub proof fn lemma_string_feed_two(s: StringState, c: char, d: char)
    ensures
        string_feed(s, seq![c, d]) == if string_step(s, c).1 is Ok {
            string_feed(string_step(s, c).0, seq![d])
        } else {
            None
        },
{
    let text = seq![c, d];
    assert(text[0] == c);
    assert(text.drop_first() =~= seq![d]);
}

/// A backslash and one character give the character that the escape stands
/// for; a backslash and a character that names no escape are refused.
pub proof fn lemma_simple_escape(before: Seq<char>, c: char)
    requires
        c != 'u',
    ensures
        string_feed(in_body(before), seq!['\\', c]) == match escaped(c) {
            Some(x) => Some(in_body(before.push(x))),
            None => None,
        },
{
    let behind = StringState { text: before, phase: StringPhase::Escape };
    lemma_string_feed_two(in_body(before), '\\', c);
    lemma_string_feed_one(behind, c);
}

/// The digits of a `\\u` escape are taken one by one at their weights.
proof fn lemma_digits(text: Seq<char>, from: nat, high: int, low: int, digits: Seq<char>)
    requires
        code_unit(digits) is Some,
        from == 0 || from == 6,
    ensures
        string_feed(
            StringState { text, phase: StringPhase::Unicode { at: from, high, low } },
            digits.take(3),
        ) == Some(
            StringState {
                text,
                phase: if from == 0 {
                    StringPhase::Unicode {
                        at: 3,
                        high: high + hex_value(digits[0])->0 * 0x1000 + hex_value(digits[1])->0
                            * 0x100 + hex_value(digits[2])->0 * 0x10,
                        low,
                    }
                } else {
                    StringPhase::Unicode {
                        at: 9,
                        high,
                        low: low + hex_value(digits[0])->0 * 0x1000 + hex_value(digits[1])->0
                            * 0x100 + hex_value(digits[2])->0 * 0x10,
                    }
                },
            },
        ),
{
    let t0 = digits.take(3);
    let t1 = t0.drop_first();
    let t2 = t1.drop_first();
    let t3 = t2.drop_first();
    assert(t0[0] == digits[0] && t1[0] == digits[1] && t2[0] == digits[2]);
    let s0 = StringState { text, phase: StringPhase::Unicode { at: from, high, low } };
    let (s1, r1) = string_step(s0, t0[0]);
    let (s2, r2) = string_step(s1, t1[0]);
    let (s3, r3) = string_step(s2, t2[0]);
    assert(r1 is Ok && r2 is Ok && r3 is Ok);
    assert(string_feed(s3, t3) == Some(s3));
    assert(string_feed(s2, t2) == Some(s3));
    assert(string_feed(s1, t1) == Some(s3));
}

/// Feeding a string one text and then another is feeding it both.
pub proof fn lemma_string_feed_concat(s: StringState, first: Seq<char>, second: Seq<char>)
    ensures
        string_feed(s, first + second) == match string_feed(s, first) {
            Some(next) => string_feed(next, second),
            None => None,
        },
    decreases first.len(),
{
    if first.len() == 0 {
        assert(first + second =~= second);
    } else {
        let whole = first + second;
        assert(whole[0] == first[0]);
        assert(whole.drop_first() =~= first.drop_first() + second);
        let (next, r) = string_step(s, first[0]);
        if r is Ok {
            lemma_string_feed_concat(next, first.drop_first(), second);
        }
    }
}

/// A `\\u` escape with four hexadecimal digits gives the character whose
/// code the digits are. Where the digits give a high surrogate the escape
/// is not over: the string waits for the second escape of the pair. Where
/// they give a low surrogate the escape is refused.
pub proof fn lemma_unicode_escape(before: Seq<char>, digits: Seq<char>)
    requires
        code_unit(digits) is Some,
    ensures
        string_feed(in_body(before), seq!['\\', 'u'] + digits) == if is_high_surrogate(
            code_unit(digits)->0,
        ) {
            Some(
                StringState {
                    text: before,
                    phase: StringPhase::Unicode { at: 4, high: code_unit(digits)->0, low: 0 },
                },
            )
        } else if is_low_surrogate(code_unit(digits)->0) {
            None
        } else {
            Some(in_body(before.push(code_unit(digits)->0 as char)))
        },
{
    let mark = seq!['\\', 'u'];
    let started = StringState { text: before, phase: StringPhase::Unicode { at: 0, high: 0, low: 0 } };
    assert(string_feed(in_body(before), mark) == Some(started)) by {
        let behind = StringState { text: before, phase: StringPhase::Escape };
        lemma_string_feed_two(in_body(before), '\\', 'u');
        lemma_string_feed_one(behind, 'u');
    }
    lemma_string_feed_concat(in_body(before), mark, digits);
    lemma_last_digit(before, 0, 0, 0, digits);
    let nearly = StringState {
        text: before,
        phase: StringPhase::Unicode {
            at: 3,
            high: code_unit(digits)->0 - hex_value(digits[3])->0,
            low: 0,
        },
    };
    lemma_string_feed_one(nearly, digits[3]);
}

/// The last of the four digits closes the code unit.
proof fn lemma_last_digit(text: Seq<char>, from: nat, high: int, low: int, digits: Seq<char>)
    requires
        code_unit(digits) is Some,
        from == 0 || from == 6,
    ensures
        string_feed(
            StringState { text, phase: StringPhase::Unicode { at: from, high, low } },
            digits,
        ) == string_feed(
            StringState {
                text,
                phase: if from == 0 {
                    StringPhase::Unicode {
                        at: 3,
                        high: high + code_unit(digits)->0 - hex_value(digits[3])->0,
                        low,
                    }
                } else {
                    StringPhase::Unicode {
                        at: 9,
                        high,
                        low: low + code_unit(digits)->0 - hex_value(digits[3])->0,
                    }
                },
            },
            seq![digits[3]],
        ),
{
    lemma_digits(text, from, high, low, digits);
    assert(digits =~= digits.take(3) + seq![digits[3]]);
    lemma_string_feed_concat(
        StringState { text, phase: StringPhase::Unicode { at: from, high, low } },
        digits.take(3),
        seq![digits[3]],
    );
}

/// Two `\\u` escapes of which the first gives a high surrogate stand for one
/// character, the one that the pair encodes, where the second gives a low
/// surrogate; where it gives anything else the pair is refused.
pub proof fn lemma_surrogate_escape(before: Seq<char>, first: Seq<char>, second: Seq<char>)
    requires
        code_unit(first) is Some,
        code_unit(second) is Some,
        is_high_surrogate(code_unit(first)->0),
    ensures
        string_feed(in_body(before), seq!['\\', 'u'] + first + (seq!['\\', 'u'] + second))
            == if is_low_surrogate(code_unit(second)->0) {
            Some(in_body(before.push(surrogate_pair(code_unit(first)->0, code_unit(second)->0))))
        } else {
            None
        },
{
    let mark = seq!['\\', 'u'];
    let high = code_unit(first)->0;
    let low = code_unit(second)->0;
    let waiting = StringState { text: before, phase: StringPhase::Unicode { at: 4, high, low: 0 } };
    let started = StringState { text: before, phase: StringPhase::Unicode { at: 6, high, low: 0 } };
    lemma_unicode_escape(before, first);
    lemma_string_feed_concat(in_body(before), mark + first, mark + second);
    assert(string_feed(waiting, mark) == Some(started)) by {
        let behind = StringState {
            text: before,
            phase: StringPhase::Unicode { at: 5, high, low: 0 },
        };
        lemma_string_feed_two(waiting, '\\', 'u');
        lemma_string_feed_one(behind, 'u');
    }
    lemma_string_feed_concat(waiting, mark, second);
    lemma_last_digit(before, 6, high, 0, second);
    let nearly = StringState {
        text: before,
        phase: StringPhase::Unicode { at: 9, high, low: low - hex_value(second[3])->0 },
    };
    lemma_string_feed_one(nearly, second[3]);
}

} // verus!
