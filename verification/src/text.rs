//! Text read from X11 window properties (window names, clipboard values):
//! UTF-8 when the bytes are valid UTF-8, else Latin-1.

use vstd::prelude::*;
use vstd::utf8::{decode_utf8, valid_utf8};

verus! {

/// Calls `std::str::from_utf8` on `bytes`: the contract claims, as its
/// documentation says, that it succeeds exactly when the bytes are valid
/// UTF-8, and then gives the text they encode.
#[verifier::external_body]
fn utf8_text(bytes: &[u8]) -> (r: Option<String>)
    ensures
        r is Some <==> valid_utf8(bytes@),
        r matches Some(s) ==> s@ == decode_utf8(bytes@),
{
    std::str::from_utf8(bytes).ok().map(String::from)
}

/// Calls `String::push`: the contract claims, as its documentation says,
/// that `c` is appended to the text.
#[verifier::external_body]
pub(crate) fn push_char(s: &mut String, c: char)
    ensures
        final(s)@ == old(s)@.push(c),
{
    s.push(c)
}

/// The characters of `s`, in order.
pub(crate) fn text_chars(s: &str) -> (v: Vec<char>)
    ensures
        v@ == s@,
{
    let mut v: Vec<char> = Vec::new();
    for c in it: s.chars()
        invariant
            it.seq() == s@,
            v@ == it.seq().take(it.index() as int),
    {
        v.push(c);
    }
    v
}

/// The Latin-1 text of `bytes`: each byte is the code point of a character.
pub open spec fn latin1(bytes: Seq<u8>) -> Seq<char> {
    Seq::new(bytes.len(), |i: int| bytes[i] as char)
}

/// The Latin-1 text of `bytes`: each byte is the code point of a character.
pub fn decode_latin1(bytes: &[u8]) -> (s: String)
    ensures
        s@ == latin1(bytes@),
{
    let mut s = String::new();
    let mut i: usize = 0;
    while i < bytes.len()
        invariant
            i <= bytes@.len(),
            s@ == latin1(bytes@.take(i as int)),
        decreases bytes@.len() - i,
    {
        push_char(&mut s, bytes[i] as char);
        i = i + 1;
        assert(s@ =~= latin1(bytes@.take(i as int)));
    }
    assert(bytes@.take(bytes@.len() as int) =~= bytes@);
    s
}

/// The text of an X11 property: its bytes read as UTF-8 when they are valid
/// UTF-8, else as Latin-1.
pub fn property_text(bytes: &[u8]) -> (s: String)
    ensures
        valid_utf8(bytes@) ==> s@ == decode_utf8(bytes@),
        !valid_utf8(bytes@) ==> s@ == latin1(bytes@),
{
    match utf8_text(bytes) {
        Some(s) => s,
        None => decode_latin1(bytes),
    }
}

} // verus!
