//! What the recognizers need of `String` and `char` beyond what the
//! verified standard library states. The two specifications here are taken
//! on trust: nothing in this crate proves them.

use vstd::prelude::*;

verus! {

/// Assumed of `String::push`: it adds the character at the end of the string
/// and changes nothing else of it.
pub assume_specification[ std::string::String::push ](s: &mut std::string::String, c: char)
    ensures
        final(s)@ == old(s)@.push(c),
;

/// Assumed of `char::from_u32`: it gives the character with the code `i`
/// where `i` is a Unicode scalar value, and `None` where `i` is a surrogate
/// or lies beyond `0x10FFFF`.
pub assume_specification[ char::from_u32 ](i: u32) -> (r: Option<char>)
    ensures
        is_scalar_value(i) ==> r == Some(i as char),
        !is_scalar_value(i) ==> r is None,
;

/// The codes of the Unicode scalar values.
pub open spec fn is_scalar_value(i: u32) -> bool {
    i <= 0xD7FF || (0xE000 <= i && i <= 0x10FFFF)
}

/// The characters of `text`, in order.
pub fn chars_of(text: &str) -> (r: Vec<char>)
    ensures
        r@ == text@,
{
    let mut out: Vec<char> = Vec::new();
    for c in it: text.chars()
        invariant
            out@ == it.seq().take(it.index()),
            it.seq() == text@,
    {
        out.push(c);
    }
    out
}

} // verus!
