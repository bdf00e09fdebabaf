//! Bytes and 16-bit units into text, by the standard library's decoders.

use vstd::prelude::*;
use vstd::utf8::{decode_utf8, valid_utf8};

verus! {

/// What `String::from_utf8` makes of `bytes`: the text they encode, or the
/// words of the error it reports.
pub uninterp spec fn utf8_decoded(bytes: Seq<u8>) -> Result<Seq<char>, Seq<char>>;

/// What `String::from_utf16` makes of `units`: the text they encode, or the
/// words of the error it reports.
pub uninterp spec fn utf16_decoded(units: Seq<u16>) -> Result<Seq<char>, Seq<char>>;

/// A decoder's answer with each side taken as a sequence of characters.
pub open spec fn decoded_view(r: Result<String, String>) -> Result<Seq<char>, Seq<char>> {
    match r {
        Ok(text) => Ok(text@),
        Err(cause) => Err(cause@),
    }
}

/// The words of a decoder's answer: the words of its error, where it gave one.
pub open spec fn refusal(decoded: Result<Seq<char>, Seq<char>>) -> Seq<char> {
    match decoded {
        Ok(text) => text,
        Err(cause) => cause,
    }
}

/// Calls `String::from_utf8` and, where it fails, takes the error's `Display` text.
///
/// Trusted: the call succeeds exactly on well-formed UTF-8 and then gives the
/// characters that the bytes encode; either way the answer is `utf8_decoded`
/// of the bytes.
#[verifier::external_body]
pub(crate) fn decode_utf8_bytes(bytes: Vec<u8>) -> (r: Result<String, String>)
    ensures
        decoded_view(r) == utf8_decoded(bytes@),
        r is Ok <==> valid_utf8(bytes@),
        r matches Ok(text) ==> text@ == decode_utf8(bytes@),
{
    match String::from_utf8(bytes) {
        Ok(text) => Ok(text),
        Err(e) => Err(format!("{}", e)),
    }
}

/// A unit that stands for half a character: the first half of a pair.
pub open spec fn is_high_surrogate(unit: u16) -> bool {
    0xD800 <= unit <= 0xDBFF
}

/// A unit that stands for half a character: the second half of a pair.
pub open spec fn is_low_surrogate(unit: u16) -> bool {
    0xDC00 <= unit <= 0xDFFF
}

/// The character that the pair of units `high` and `low` stands for.
pub open spec fn paired(high: u16, low: u16) -> char {
    ((0x10000 + (high - 0xD800) * 0x400 + (low - 0xDC00)) as u32) as char
}

/// `c` before the text `rest`, where there is such a text.
pub open spec fn before(c: char, rest: Option<Seq<char>>) -> Option<Seq<char>> {
    match rest {
        Some(text) => Some(seq![c] + text),
        None => None,
    }
}

/// The text that `units` encode in UTF-16, where they encode one: a unit
/// that is no half stands for the character with its value, a first half
/// and the second half after it stand for one character, and a half
/// without its partner makes the units no text.
pub open spec fn utf16_text(units: Seq<u16>) -> Option<Seq<char>>
    decreases units.len(),
{
    if units.len() == 0 {
        Some(Seq::empty())
    } else if !is_high_surrogate(units[0]) && !is_low_surrogate(units[0]) {
        before((units[0] as u32) as char, utf16_text(units.skip(1)))
    } else if is_high_surrogate(units[0]) && units.len() >= 2 && is_low_surrogate(units[1]) {
        before(paired(units[0], units[1]), utf16_text(units.skip(2)))
    } else {
        None
    }
}

/// Calls `String::from_utf16` and, where it fails, takes the error's `Display` text.
///
/// Trusted: the call succeeds exactly on well-formed UTF-16 and then gives
/// the characters that the units encode; either way the answer is
/// `utf16_decoded` of the units.
#[verifier::external_body]
pub(crate) fn decode_utf16_units(units: &[u16]) -> (r: Result<String, String>)
    ensures
        decoded_view(r) == utf16_decoded(units@),
        r is Ok <==> utf16_text(units@) is Some,
        r matches Ok(text) ==> utf16_text(units@) == Some(text@),
{
    match String::from_utf16(units) {
        Ok(text) => Ok(text),
        Err(e) => Err(format!("{}", e)),
    }
}

} // verus!
