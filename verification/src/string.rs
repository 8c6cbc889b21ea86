//! The recognizer of a string: a quote, the body with its backslash
//! escapes, and the closing quote.
//!
//! A `\u` escape gives four hexadecimal digits of a UTF-16 code unit. A high
//! surrogate must be followed by a second `\u` escape that gives a low
//! surrogate; the two stand for one character. A low surrogate on its own
//! stands for nothing and is refused.

use vstd::prelude::*;
use vstd::std_specs::cmp::PartialEqSpecImpl;
use crate::error::{ErrorKind, Expected};
use crate::lexis::{hex_value, is_raw_control, is_whitespace, raw_control, whitespace};

verus! {

/// The step of a string recognizer. In `zhuanyi_utf` the first field counts
/// the characters of the escape taken since its `u`, and the second holds the
/// code units read so far, the first escape's and the second's.
#[allow(non_camel_case_types)]
#[derive(Clone, Copy, Debug)]
pub enum StringMode {
    /// Before the opening quote.
    start,
    /// In the body.
    str,
    /// Behind a backslash.
    zhuanyi,
    /// In a `\u` escape.
    zhuanyi_utf(u8, [u16; 2]),
    /// Behind the closing quote, or stopped by an error.
    end,
}

/// The step of a string recognizer, as the specifications speak of it.
pub ghost enum StringPhase {
    /// Before the opening quote.
    Start,
    /// In the body.
    Body,
    /// Behind a backslash.
    Escape,
    /// In a `\u` escape, `at` characters behind its `u`, with the code units
    /// `high` and `low` read so far.
    Unicode { at: nat, high: int, low: int },
    /// Behind the closing quote, or stopped by an error.
    End,
}

/// A string recognizer, as the specifications speak of it: the characters
/// decoded so far and the step.
pub ghost struct StringState {
    pub text: Seq<char>,
    pub phase: StringPhase,
}

impl StringMode {
    /// The step that this mode stands for.
    pub open spec fn phase(self) -> StringPhase {
        match self {
            StringMode::start => StringPhase::Start,
            StringMode::str => StringPhase::Body,
            StringMode::zhuanyi => StringPhase::Escape,
            StringMode::zhuanyi_utf(at, units) => StringPhase::Unicode {
                at: at as nat,
                high: units[0] as int,
                low: units[1] as int,
            },
            StringMode::end => StringPhase::End,
        }
    }

    /// Two modes are of the same kind, whatever an escape has read.
    pub open spec fn same_kind(self, other: StringMode) -> bool {
        match (self, other) {
            (StringMode::start, StringMode::start) => true,
            (StringMode::str, StringMode::str) => true,
            (StringMode::zhuanyi, StringMode::zhuanyi) => true,
            (StringMode::zhuanyi_utf(_, _), StringMode::zhuanyi_utf(_, _)) => true,
            (StringMode::end, StringMode::end) => true,
            _ => false,
        }
    }
}

impl PartialEq for StringMode {
    /// Modes are equal when they are of the same kind.
    fn eq(&self, other: &StringMode) -> (r: bool) {
        match (*self, *other) {
            (StringMode::start, StringMode::start) => true,
            (StringMode::str, StringMode::str) => true,
            (StringMode::zhuanyi, StringMode::zhuanyi) => true,
            (StringMode::zhuanyi_utf(_, _), StringMode::zhuanyi_utf(_, _)) => true,
            (StringMode::end, StringMode::end) => true,
            _ => false,
        }
    }
}

impl PartialEqSpecImpl for StringMode {
    open spec fn obeys_eq_spec() -> bool {
        true
    }

    open spec fn eq_spec(&self, other: &StringMode) -> bool {
        self.same_kind(*other)
    }
}

/// The first of the two code units that stand for a character beyond `0xFFFF`.
pub open spec fn is_high_surrogate(unit: int) -> bool {
    0xD800 <= unit <= 0xDBFF
}

/// The second of the two code units that stand for a character beyond `0xFFFF`.
pub open spec fn is_low_surrogate(unit: int) -> bool {
    0xDC00 <= unit <= 0xDFFF
}

/// The character that a surrogate pair stands for.
pub open spec fn surrogate_pair(high: int, low: int) -> char {
    (0x10000 + (high - 0xD800) * 0x400 + (low - 0xDC00)) as char
}

/// The weight of the hexadecimal digit that has `place` digits behind it.
pub open spec fn hex_weight(place: int) -> int {
    if place == 3 {
        0x1000
    } else if place == 2 {
        0x100
    } else if place == 1 {
        0x10
    } else {
        1
    }
}

/// The character that stands behind a backslash as `c`, for the escapes of
/// one character.
pub open spec fn escaped(c: char) -> Option<char> {
    if c == '"' || c == '\\' || c == '/' {
        Some(c)
    } else if c == 'b' {
        Some('\x08')
    } else if c == 'f' {
        Some('\x0c')
    } else if c == 'n' {
        Some('\n')
    } else if c == 'r' {
        Some('\r')
    } else if c == 't' {
        Some('\t')
    } else {
        None
    }
}

/// A recognizer stopped by an error of the given kind, its text kept.
pub open spec fn string_stopped(text: Seq<char>, kind: ErrorKind) -> (StringState, Result<
    (),
    ErrorKind,
>) {
    (StringState { text, phase: StringPhase::End }, Err(kind))
}

/// One character inside a `\u` escape.
pub open spec fn unicode_step(text: Seq<char>, at: nat, high: int, low: int, c: char) -> (
    StringState,
    Result<(), ErrorKind>,
) {
    if at <= 3 {
        match hex_value(c) {
            None => (
                StringState { text, phase: StringPhase::Unicode { at, high, low } },
                Err(ErrorKind::InvalidEscape),
            ),
            Some(d) => {
                let unit = high + d * hex_weight(3 - at);
                if at < 3 || is_high_surrogate(unit) {
                    (
                        StringState {
                            text,
                            phase: StringPhase::Unicode { at: at + 1, high: unit, low },
                        },
                        Ok(()),
                    )
                } else if is_low_surrogate(unit) {
                    string_stopped(text, ErrorKind::InvalidEscape)
                } else {
                    (StringState { text: text.push(unit as char), phase: StringPhase::Body }, Ok(()))
                }
            },
        }
    } else if at == 4 {
        if c == '\\' {
            (StringState { text, phase: StringPhase::Unicode { at: 5, high, low } }, Ok(()))
        } else {
            string_stopped(text, ErrorKind::InvalidEscape)
        }
    } else if at == 5 {
        if c == 'u' {
            (StringState { text, phase: StringPhase::Unicode { at: 6, high, low } }, Ok(()))
        } else {
            string_stopped(text, ErrorKind::InvalidEscape)
        }
    } else if at <= 9 {
        match hex_value(c) {
            None => string_stopped(text, ErrorKind::InvalidEscape),
            Some(d) => {
                let unit = low + d * hex_weight(9 - at);
                if at < 9 {
                    (
                        StringState {
                            text,
                            phase: StringPhase::Unicode { at: at + 1, high, low: unit },
                        },
                        Ok(()),
                    )
                } else if is_low_surrogate(unit) {
                    (
                        StringState {
                            text: text.push(surrogate_pair(high, unit)),
                            phase: StringPhase::Body,
                        },
                        Ok(()),
                    )
                } else {
                    string_stopped(text, ErrorKind::InvalidEscape)
                }
            },
        }
    } else {
        string_stopped(text, ErrorKind::InvalidEscape)
    }
}

/// One character: the recognizer after it, and what it answers.
pub open spec fn string_step(s: StringState, c: char) -> (StringState, Result<(), ErrorKind>) {
    match s.phase {
        StringPhase::Start => {
            if c == '"' {
                (StringState { text: s.text, phase: StringPhase::Body }, Ok(()))
            } else if is_whitespace(c) {
                (s, Ok(()))
            } else {
                (s, Err(ErrorKind::UnexpectedCharacter(Expected::Quote)))
            }
        },
        StringPhase::Body => {
            if c == '"' {
                (StringState { text: s.text, phase: StringPhase::End }, Ok(()))
            } else if c == '\\' {
                (StringState { text: s.text, phase: StringPhase::Escape }, Ok(()))
            } else if is_raw_control(c) {
                string_stopped(s.text, ErrorKind::UnexpectedCharacter(Expected::StringBody))
            } else {
                (StringState { text: s.text.push(c), phase: StringPhase::Body }, Ok(()))
            }
        },
        StringPhase::Escape => {
            match escaped(c) {
                Some(x) => (StringState { text: s.text.push(x), phase: StringPhase::Body }, Ok(())),
                None => {
                    if c == 'u' {
                        (
                            StringState {
                                text: s.text,
                                phase: StringPhase::Unicode { at: 0, high: 0, low: 0 },
                            },
                            Ok(()),
                        )
                    } else {
                        string_stopped(s.text, ErrorKind::InvalidEscape)
                    }
                },
            }
        },
        StringPhase::Unicode { at, high, low } => unicode_step(s.text, at, high, low, c),
        StringPhase::End => (s, Err(ErrorKind::ReenteredTerminalState)),
    }
}

/// The value of a hexadecimal digit, of either case.
pub fn char_to_u8_16hx(c: char) -> (r: Result<u8, ErrorKind>)
    ensures
        match hex_value(c) {
            Some(d) => r == Ok::<u8, ErrorKind>(d),
            None => r == Err::<u8, ErrorKind>(ErrorKind::InvalidEscape),
        },
        r matches Ok(d) ==> d <= 15,
{
    if '0' <= c && c <= '9' {
        Ok(c as u8 - '0' as u8)
    } else if 'a' <= c && c <= 'f' {
        Ok(c as u8 - 'a' as u8 + 10)
    } else if 'A' <= c && c <= 'F' {
        Ok(c as u8 - 'A' as u8 + 10)
    } else {
        Err(ErrorKind::InvalidEscape)
    }
}

/// The digit `d` at its weight, for the digit with `place` digits behind it.
fn weighted(d: u8, place: u8) -> (r: u16)
    requires
        d <= 15,
        place <= 3,
    ensures
        r == d * hex_weight(place as int),
        r <= 15 * hex_weight(place as int),
{
    let wide: u16 = d as u16;
    if place == 3 {
        wide * 0x1000
    } else if place == 2 {
        wide * 0x100
    } else if place == 1 {
        wide * 0x10
    } else {
        wide
    }
}

/// The code units of an escape leave room for the digits still to come, and
/// the first is a high surrogate once the second escape has begun.
pub open spec fn units_in_range(at: nat, high: int, low: int) -> bool {
    &&& at <= 9
    &&& at <= 3 ==> 0 <= high <= 0x10000 - 0x10 * hex_weight(3 - at)
    &&& at >= 4 ==> is_high_surrogate(high)
    &&& at <= 6 ==> low == 0
    &&& at >= 6 ==> 0 <= low <= 0x10000 - 0x10 * hex_weight(9 - at)
}

/// The recognizer of a string: the characters decoded so far, and the step.
pub struct StringContext {
    pub(crate) str: String,
    pub(crate) mode: StringMode,
}

impl View for StringContext {
    type V = StringState;

    closed spec fn view(&self) -> StringState {
        StringState { text: self.str@, phase: self.mode.phase() }
    }
}

impl StringContext {
    #[verifier::type_invariant]
    spec fn inv(self) -> bool {
        self.mode matches StringMode::zhuanyi_utf(at, units) ==> units_in_range(
            at as nat,
            units[0] as int,
            units[1] as int,
        )
    }

    /// The characters decoded so far.
    pub fn get_str<'a>(&'a self) -> (r: &'a str)
        ensures
            r@ == self@.text,
    {
        self.str.as_str()
    }

    /// The step at which the recognizer stands.
    pub fn get_mode<'a>(&'a self) -> (r: &'a StringMode)
        ensures
            r.phase() == self@.phase,
    {
        &self.mode
    }

    /// A recognizer that waits for the opening quote.
    pub fn new() -> (r: StringContext)
        ensures
            r@ == (StringState { text: Seq::<char>::empty(), phase: StringPhase::Start }),
    {
        StringContext { str: String::new(), mode: StringMode::start }
    }

    /// A recognizer that has taken the opening quote.
    pub fn opened() -> (r: StringContext)
        ensures
            r@ == (StringState { text: Seq::<char>::empty(), phase: StringPhase::Body }),
    {
        StringContext { str: String::new(), mode: StringMode::str }
    }

    /// Tells whether the recognizer has stopped: behind the closing quote,
    /// or at a character that it refused.
    pub fn finished(&self) -> (r: bool)
        ensures
            r == (self@.phase is End),
    {
        match self.mode {
            StringMode::end => true,
            _ => false,
        }
    }

    /// Adds a decoded character to the text.
    fn push(&mut self, c: char)
        ensures
            final(self)@ == (StringState { text: old(self)@.text.push(c), phase: old(self)@.phase }),
            final(self).mode == old(self).mode,
    {
        proof {
            use_type_invariant(&*self);
        }
        let mut text = String::new();
        std::mem::swap(&mut text, &mut self.str);
        text.push(c);
        self.str = text;
    }

    /// Takes one character.
    pub fn check_string(&mut self, c: char) -> (r: Result<(), ErrorKind>)
        ensures
            final(self)@ == string_step(old(self)@, c).0,
            r == string_step(old(self)@, c).1,
    {
        proof {
            use_type_invariant(&*self);
        }
        match self.mode {
            StringMode::start => {
                if c == '"' {
                    self.mode = StringMode::str;
                    Ok(())
                } else if whitespace(c) {
                    Ok(())
                } else {
                    Err(ErrorKind::UnexpectedCharacter(Expected::Quote))
                }
            },
            StringMode::str => {
                if c == '"' {
                    self.mode = StringMode::end;
                    Ok(())
                } else if c == '\\' {
                    self.mode = StringMode::zhuanyi;
                    Ok(())
                } else if raw_control(c) {
                    self.mode = StringMode::end;
                    Err(ErrorKind::UnexpectedCharacter(Expected::StringBody))
                } else {
                    self.push(c);
                    Ok(())
                }
            },
            StringMode::zhuanyi => {
                if c == '"' || c == '\\' || c == '/' {
                    self.push(c);
                    self.mode = StringMode::str;
                    Ok(())
                } else if c == 'b' {
                    self.push('\x08');
                    self.mode = StringMode::str;
                    Ok(())
                } else if c == 'f' {
                    self.push('\x0c');
                    self.mode = StringMode::str;
                    Ok(())
                } else if c == 'n' {
                    self.push('\n');
                    self.mode = StringMode::str;
                    Ok(())
                } else if c == 'r' {
                    self.push('\r');
                    self.mode = StringMode::str;
                    Ok(())
                } else if c == 't' {
                    self.push('\t');
                    self.mode = StringMode::str;
                    Ok(())
                } else if c == 'u' {
                    self.mode = StringMode::zhuanyi_utf(0, [0, 0]);
                    Ok(())
                } else {
                    self.mode = StringMode::end;
                    Err(ErrorKind::InvalidEscape)
                }
            },
            StringMode::zhuanyi_utf(at, units) => self.check_unicode(at, units, c),
            StringMode::end => Err(ErrorKind::ReenteredTerminalState),
        }
    }

    /// Takes one character inside a `\u` escape that stands at `at` with `units`.
    fn check_unicode(&mut self, at: u8, units: [u16; 2], c: char) -> (r: Result<(), ErrorKind>)
        requires
            old(self).mode == StringMode::zhuanyi_utf(at, units),
        ensures
            final(self)@ == string_step(old(self)@, c).0,
            r == string_step(old(self)@, c).1,
    {
        proof {
            use_type_invariant(&*self);
        }
        let high: u16 = units[0];
        let low: u16 = units[1];
        if at <= 3 {
            match char_to_u8_16hx(c) {
                Err(e) => Err(e),
                Ok(d) => {
                    let unit: u16 = high + weighted(d, 3 - at);
                    if at < 3 || (0xD800 <= unit && unit <= 0xDBFF) {
                        self.mode = StringMode::zhuanyi_utf(at + 1, [unit, low]);
                        Ok(())
                    } else {
                        match char::from_u32(unit as u32) {
                            Some(x) => {
                                self.push(x);
                                self.mode = StringMode::str;
                                Ok(())
                            },
                            None => {
                                self.mode = StringMode::end;
                                Err(ErrorKind::InvalidEscape)
                            },
                        }
                    }
                },
            }
        } else if at == 4 {
            if c == '\\' {
                self.mode = StringMode::zhuanyi_utf(5, units);
                Ok(())
            } else {
                self.mode = StringMode::end;
                Err(ErrorKind::InvalidEscape)
            }
        } else if at == 5 {
            if c == 'u' {
                self.mode = StringMode::zhuanyi_utf(6, units);
                Ok(())
            } else {
                self.mode = StringMode::end;
                Err(ErrorKind::InvalidEscape)
            }
        } else if at <= 9 {
            match char_to_u8_16hx(c) {
                Err(e) => {
                    self.mode = StringMode::end;
                    Err(e)
                },
                Ok(d) => {
                    let unit: u16 = low + weighted(d, 9 - at);
                    if at < 9 {
                        self.mode = StringMode::zhuanyi_utf(at + 1, [high, unit]);
                        Ok(())
                    } else if 0xDC00 <= unit && unit <= 0xDFFF {
                        let code: u32 = 0x10000 + (high as u32 - 0xD800) * 0x400 + (unit as u32
                            - 0xDC00);
                        match char::from_u32(code) {
                            Some(x) => {
                                self.push(x);
                                self.mode = StringMode::str;
                                Ok(())
                            },
                            None => {
                                self.mode = StringMode::end;
                                Err(ErrorKind::InvalidEscape)
                            },
                        }
                    } else {
                        self.mode = StringMode::end;
                        Err(ErrorKind::InvalidEscape)
                    }
                },
            }
        } else {
            self.mode = StringMode::end;
            Err(ErrorKind::InvalidEscape)
        }
    }
}

} // verus!
