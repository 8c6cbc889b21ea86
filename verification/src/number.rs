//! Numbers: the grammar of a decimal literal, and the accumulator that
//! collects the characters of a number until one arrives that cannot be part
//! of it.
//!
//! A number is kept as the text of its literal, exactly as it was written.

use vstd::prelude::*;
use vstd::string::StringExecFns;
use crate::error::{ErrorKind, NumberFault};
use crate::lexis::{digit, is_digit, is_exponent_mark, is_number_char, is_sign, number_char};
use crate::text::chars_of;

verus! {

/// Every character of `s` is a decimal digit.
pub open spec fn all_digits(s: Seq<char>) -> bool {
    forall|i: int| 0 <= i < s.len() ==> is_digit(#[trigger] s[i])
}

/// Digits with at most one point among them, and at least one digit.
pub open spec fn is_mantissa(s: Seq<char>) -> bool {
    ||| s.len() > 0 && all_digits(s)
    ||| exists|k: int|
        0 <= k < s.len() && s.len() > 1 && #[trigger] s[k] == '.' && all_digits(s.take(k))
            && all_digits(s.skip(k + 1))
}

/// An exponent: `e` or `E`, an optional sign, and at least one digit.
pub open spec fn is_exponent(s: Seq<char>) -> bool {
    &&& s.len() >= 2
    &&& is_exponent_mark(s[0])
    &&& if is_sign(s[1]) {
        s.len() >= 3 && all_digits(s.skip(2))
    } else {
        all_digits(s.skip(1))
    }
}

/// A mantissa, which an exponent may follow.
pub open spec fn is_unsigned_literal(s: Seq<char>) -> bool {
    ||| is_mantissa(s)
    ||| exists|k: int|
        0 < k < s.len() && is_mantissa(#[trigger] s.take(k)) && is_exponent(s.skip(k))
}

/// A decimal literal: an optional sign, a mantissa and an optional exponent.
pub open spec fn is_decimal_literal(s: Seq<char>) -> bool {
    ||| is_unsigned_literal(s)
    ||| s.len() > 0 && is_sign(s[0]) && is_unsigned_literal(s.skip(1))
}

/// The fault of a buffer that is not a decimal literal.
pub open spec fn number_fault(s: Seq<char>) -> NumberFault {
    if s.len() == 0 {
        NumberFault::Empty
    } else {
        NumberFault::Malformed
    }
}

/// What the accumulator answers to `c` with `buffer` collected: `Ok(false)`
/// while `c` belongs to the number; otherwise the number has ended before
/// `c`, with `Ok(true)` where the buffer is a decimal literal and an error
/// where it is not.
pub open spec fn number_result(buffer: Seq<char>, c: char) -> Result<bool, ErrorKind> {
    if is_number_char(c) {
        Ok(false)
    } else if is_decimal_literal(buffer) {
        Ok(true)
    } else {
        Err(ErrorKind::InvalidNumber(number_fault(buffer)))
    }
}

/// The buffer after `c`: longer by `c` where `c` belongs to the number,
/// unchanged where it does not.
pub open spec fn number_next(buffer: Seq<char>, c: char) -> Seq<char> {
    if is_number_char(c) {
        buffer.push(c)
    } else {
        buffer
    }
}

/// A mantissa begins with a digit or a point.
pub proof fn lemma_mantissa_head(s: Seq<char>)
    requires
        is_mantissa(s),
    ensures
        s.len() > 0,
        is_digit(s[0]) || s[0] == '.',
{
    if !(s.len() > 0 && all_digits(s)) {
        let k = choose|k: int|
            0 <= k < s.len() && s.len() > 1 && #[trigger] s[k] == '.' && all_digits(s.take(k))
                && all_digits(s.skip(k + 1));
        if k > 0 {
            assert(s.take(k)[0] == s[0]);
        }
    }
}

/// A sign opens a literal only as its sign: what follows it decides.
pub proof fn lemma_literal_sign(s: Seq<char>)
    ensures
        s.len() > 0 && is_sign(s[0]) ==> is_decimal_literal(s) == is_unsigned_literal(s.skip(1)),
        !(s.len() > 0 && is_sign(s[0])) ==> is_decimal_literal(s) == is_unsigned_literal(s),
{
    if is_unsigned_literal(s) {
        if is_mantissa(s) {
            lemma_mantissa_head(s);
        } else {
            let k = choose|k: int|
                0 < k < s.len() && is_mantissa(#[trigger] s.take(k)) && is_exponent(s.skip(k));
            lemma_mantissa_head(s.take(k));
            assert(s.take(k)[0] == s[0]);
        }
    }
}

/// Where a run of digits ends: the digits of `t` from `from` reach to `to`
/// and no further.
pub open spec fn digit_run(t: Seq<char>, from: int, to: int) -> bool {
    &&& 0 <= from <= to <= t.len()
    &&& forall|i: int| from <= i < to ==> is_digit(#[trigger] t[i])
    &&& to < t.len() ==> !is_digit(t[to])
}

/// The answer of a scan over `t` that found the integer digits to end at `b`
/// and, where a point stands there, the fraction digits to end at `d`
/// (without a point `d` is `b`), and behind an exponent mark at `d` and its
/// sign the exponent digits to run from `f` to `g`.
pub open spec fn scan_answer(t: Seq<char>, b: int, d: int, f: int, g: int) -> bool {
    let point = b < t.len() && t[b] == '.';
    let digits = if point { d - 1 } else { d };
    &&& digits > 0
    &&& d == t.len() || (is_exponent_mark(t[d]) && f < g && g == t.len())
}

/// The positions that a scan over `t` finds, stated together.
pub open spec fn scan_positions(t: Seq<char>, b: int, d: int, f: int, g: int) -> bool {
    let point = b < t.len() && t[b] == '.';
    &&& digit_run(t, 0, b)
    &&& if point {
        digit_run(t, b + 1, d)
    } else {
        d == b
    }
    &&& d < t.len() ==> {
        &&& f == if d + 1 < t.len() && is_sign(t[d + 1]) {
            d + 2
        } else {
            d + 1
        }
        &&& digit_run(t, f, g)
    }
}

/// A scan that finds a literal has found a mantissa and, where the text goes
/// on, an exponent.
proof fn lemma_scan_sound(t: Seq<char>, b: int, d: int, f: int, g: int)
    requires
        scan_positions(t, b, d, f, g),
        scan_answer(t, b, d, f, g),
    ensures
        is_unsigned_literal(t),
{
    let point = b < t.len() && t[b] == '.';
    let m = t.take(d);
    assert(is_mantissa(m)) by {
        if point {
            assert(m[b] == '.');
            assert(all_digits(m.take(b))) by {
                assert forall|i: int| 0 <= i < m.take(b).len() implies is_digit(
                    #[trigger] m.take(b)[i],
                ) by {
                    assert(m.take(b)[i] == t[i]);
                }
            }
            assert(all_digits(m.skip(b + 1))) by {
                assert forall|i: int| 0 <= i < m.skip(b + 1).len() implies is_digit(
                    #[trigger] m.skip(b + 1)[i],
                ) by {
                    assert(m.skip(b + 1)[i] == t[b + 1 + i]);
                }
            }
        } else {
            assert(all_digits(m)) by {
                assert forall|i: int| 0 <= i < m.len() implies is_digit(#[trigger] m[i]) by {
                    assert(m[i] == t[i]);
                }
            }
        }
    }
    if d == t.len() {
        assert(m =~= t);
    } else {
        let x = t.skip(d);
        assert(x[0] == t[d]);
        assert(x[1] == t[d + 1]);
        assert(is_exponent(x)) by {
            if is_sign(x[1]) {
                assert forall|i: int| 0 <= i < x.skip(2).len() implies is_digit(
                    #[trigger] x.skip(2)[i],
                ) by {
                    assert(x.skip(2)[i] == t[d + 2 + i]);
                }
            } else {
                assert forall|i: int| 0 <= i < x.skip(1).len() implies is_digit(
                    #[trigger] x.skip(1)[i],
                ) by {
                    assert(x.skip(1)[i] == t[d + 1 + i]);
                }
            }
        }
    }
}

/// A run of digits that starts at `from` can end in one place only.
proof fn lemma_digit_run_unique(t: Seq<char>, from: int, to: int, other: int)
    requires
        digit_run(t, from, to),
        from <= other <= t.len(),
        forall|i: int| from <= i < other ==> is_digit(#[trigger] t[i]),
        other < t.len() ==> !is_digit(t[other]),
    ensures
        to == other,
{
    if to < other {
        assert(is_digit(t[to]));
    }
    if other < to {
        assert(is_digit(t[other]));
    }
}

/// The mantissa `t.take(k)` is found by the scan: its digits end where the
/// scan says, and it holds a digit.
proof fn lemma_scan_mantissa(t: Seq<char>, k: int, b: int, d: int, f: int, g: int)
    requires
        scan_positions(t, b, d, f, g),
        0 < k <= t.len(),
        is_mantissa(t.take(k)),
        k < t.len() ==> is_exponent_mark(t[k]),
    ensures
        d == k,
        (if b < t.len() && t[b] == '.' {
            d - 1
        } else {
            d
        }) > 0,
{
    let m = t.take(k);
    if m.len() > 0 && all_digits(m) {
        assert forall|i: int| 0 <= i < k implies is_digit(#[trigger] t[i]) by {
            assert(m[i] == t[i]);
        }
        lemma_digit_run_unique(t, 0, b, k);
    } else {
        let j = choose|j: int|
            0 <= j < m.len() && m.len() > 1 && #[trigger] m[j] == '.' && all_digits(m.take(j))
                && all_digits(m.skip(j + 1));
        assert(t[j] == '.');
        assert forall|i: int| 0 <= i < j implies is_digit(#[trigger] t[i]) by {
            assert(m.take(j)[i] == t[i]);
        }
        lemma_digit_run_unique(t, 0, b, j);
        assert forall|i: int| j + 1 <= i < k implies is_digit(#[trigger] t[i]) by {
            assert(m.skip(j + 1)[i - j - 1] == t[i]);
        }
        lemma_digit_run_unique(t, j + 1, d, k);
    }
}

/// A literal is found by the scan.
proof fn lemma_scan_complete(t: Seq<char>, b: int, d: int, f: int, g: int)
    requires
        scan_positions(t, b, d, f, g),
        is_unsigned_literal(t),
    ensures
        scan_answer(t, b, d, f, g),
{
    if is_mantissa(t) {
        lemma_mantissa_head(t);
        assert(t.take(t.len() as int) =~= t);
        lemma_scan_mantissa(t, t.len() as int, b, d, f, g);
    } else {
        let k = choose|k: int|
            0 < k < t.len() && is_mantissa(#[trigger] t.take(k)) && is_exponent(t.skip(k));
        let x = t.skip(k);
        assert(x[0] == t[k]);
        assert(x[1] == t[k + 1]);
        lemma_scan_mantissa(t, k, b, d, f, g);
        if is_sign(x[1]) {
            assert forall|i: int| k + 2 <= i < t.len() implies is_digit(#[trigger] t[i]) by {
                assert(x.skip(2)[i - k - 2] == t[i]);
            }
        } else {
            assert forall|i: int| k + 1 <= i < t.len() implies is_digit(#[trigger] t[i]) by {
                assert(x.skip(1)[i - k - 1] == t[i]);
            }
        }
        lemma_digit_run_unique(t, f, g, t.len() as int);
    }
}

/// Finds where the digits of `v` that start at `from` end.
fn digits_end(v: &Vec<char>, from: usize) -> (to: usize)
    requires
        from <= v.len(),
    ensures
        from <= to <= v.len(),
        forall|i: int| from <= i < to ==> is_digit(#[trigger] v@[i]),
        to < v.len() ==> !is_digit(v@[to as int]),
{
    let mut to: usize = from;
    while to < v.len() && digit(v[to])
        invariant
            from <= to <= v.len(),
            forall|i: int| from <= i < to ==> is_digit(#[trigger] v@[i]),
        decreases v.len() - to,
    {
        to = to + 1;
    }
    to
}

/// Decides whether the characters of `v` from `from` on are a mantissa with
/// an optional exponent.
fn unsigned_literal(v: &Vec<char>, from: usize) -> (r: bool)
    requires
        from <= v.len(),
    ensures
        r == is_unsigned_literal(v@.skip(from as int)),
{
    let ghost t = v@.skip(from as int);
    let len: usize = v.len();
    let b: usize = digits_end(v, from);
    let point: bool = b < len && v[b] == '.';
    let d: usize = if point {
        digits_end(v, b + 1)
    } else {
        b
    };
    let mut f: usize = d;
    let mut g: usize = d;
    if d < len {
        f = if d + 1 < len && (v[d + 1] == '-' || v[d + 1] == '+') {
            d + 2
        } else {
            d + 1
        };
        g = digits_end(v, f);
    }
    let digits: usize = if point {
        d - from - 1
    } else {
        d - from
    };
    let r: bool = digits > 0 && (d == len || ((v[d] == 'e' || v[d] == 'E') && f < g && g == len));
    proof {
        let (rb, rd, rf, rg) = (b - from, d - from, f - from, g - from);
        assert forall|i: int| 0 <= i < t.len() implies #[trigger] t[i] == v@[from + i] by {}
        assert(digit_run(t, 0, rb)) by {
            assert forall|i: int| 0 <= i < rb implies is_digit(#[trigger] t[i]) by {
                assert(is_digit(v@[from + i]));
            }
        }
        if point {
            assert(digit_run(t, rb + 1, rd)) by {
                assert forall|i: int| rb + 1 <= i < rd implies is_digit(#[trigger] t[i]) by {
                    assert(is_digit(v@[from + i]));
                }
            }
        }
        if d < len {
            assert(digit_run(t, rf, rg)) by {
                assert forall|i: int| rf <= i < rg implies is_digit(#[trigger] t[i]) by {
                    assert(is_digit(v@[from + i]));
                }
            }
        }
        assert(scan_positions(t, rb, rd, rf, rg));
        assert(r == scan_answer(t, rb, rd, rf, rg));
        if r {
            lemma_scan_sound(t, rb, rd, rf, rg);
        }
        if is_unsigned_literal(t) {
            lemma_scan_complete(t, rb, rd, rf, rg);
        }
    }
    r
}

/// Decides whether `text` is a decimal literal.
pub fn decimal_literal(text: &str) -> (r: bool)
    ensures
        r == is_decimal_literal(text@),
{
    let v: Vec<char> = chars_of(text);
    proof {
        lemma_literal_sign(v@);
    }
    if v.len() > 0 && (v[0] == '-' || v[0] == '+') {
        unsigned_literal(&v, 1)
    } else {
        assert(v@.skip(0) =~= v@);
        unsigned_literal(&v, 0)
    }
}

/// The accumulator of a number: the characters collected so far, and the
/// literal that was last found valid.
pub struct NumberContext {
    number_str: String,
    number: String,
}

impl View for NumberContext {
    type V = Seq<char>;

    /// The characters collected so far.
    closed spec fn view(&self) -> Seq<char> {
        self.number_str@
    }
}

impl NumberContext {
    /// The literal that was last found valid; `0` before any was.
    pub closed spec fn recognized(&self) -> Seq<char> {
        self.number@
    }

    /// An accumulator that has collected nothing.
    pub fn new() -> (r: NumberContext)
        ensures
            r@ == Seq::<char>::empty(),
            r.recognized() == seq!['0'],
    {
        let mut zero = String::new();
        zero.push('0');
        assert(zero@ =~= seq!['0']);
        NumberContext { number_str: String::new(), number: zero }
    }

    /// An accumulator that has collected the characters of `s`.
    pub fn new_from_str(s: &str) -> (r: NumberContext)
        ensures
            r@ == s@,
            r.recognized() == seq!['0'],
    {
        let mut zero = String::new();
        zero.push('0');
        assert(zero@ =~= seq!['0']);
        NumberContext { number_str: String::from_str(s), number: zero }
    }

    /// The buffer of collected characters, to be added to.
    pub fn get_number_str_mut(&mut self) -> (r: &mut String)
        ensures
            r@ == old(self)@,
            final(self)@ == final(r)@,
            final(self).recognized() == old(self).recognized(),
    {
        &mut self.number_str
    }

    /// The literal that was last found valid.
    pub fn get_number(&self) -> (r: String)
        ensures
            r@ == self.recognized(),
    {
        self.number.clone()
    }

    /// Adds `s` to the buffer and tests the whole of it. A buffer that is a
    /// decimal literal becomes the recognized number.
    pub fn check_number(&mut self, s: &str) -> (r: Result<(), ErrorKind>)
        ensures
            final(self)@ == old(self)@ + s@,
            r is Ok <==> is_decimal_literal(final(self)@),
            r is Ok ==> final(self).recognized() == final(self)@,
            r is Err ==> final(self).recognized() == old(self).recognized(),
            r is Err ==> r == Err::<(), ErrorKind>(
                ErrorKind::InvalidNumber(number_fault(final(self)@)),
            ),
    {
        self.number_str.append(s);
        if decimal_literal(self.number_str.as_str()) {
            self.number = self.number_str.clone();
            Ok(())
        } else if self.number_str.as_str().unicode_len() == 0 {
            Err(ErrorKind::InvalidNumber(NumberFault::Empty))
        } else {
            Err(ErrorKind::InvalidNumber(NumberFault::Malformed))
        }
    }

    /// Takes one character. A character that a number can hold is collected.
    /// Any other ends the number in front of it: the buffer is tested, and the
    /// character is left for the caller to look at again.
    pub fn feed(&mut self, c: char) -> (r: Result<bool, ErrorKind>)
        ensures
            r == number_result(old(self)@, c),
            final(self)@ == number_next(old(self)@, c),
            r == Ok::<bool, ErrorKind>(true) ==> final(self).recognized() == old(self)@,
            r != Ok::<bool, ErrorKind>(true) ==> final(self).recognized() == old(self).recognized(),
    {
        if number_char(c) {
            self.number_str.push(c);
            Ok(false)
        } else {
            assert(self@ + ""@ =~= self@) by {
                reveal_strlit("");
            }
            match self.check_number("") {
                Ok(()) => Ok(true),
                Err(e) => Err(e),
            }
        }
    }
}

} // verus!
