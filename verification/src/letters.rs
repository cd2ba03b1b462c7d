//! Letters of game words. Words are sequences of lowercase ASCII letter
//! bytes; raw character input is normalized to that form before it enters a
//! guess, and dictionary membership is tested case-insensitively.

use vstd::prelude::*;

verus! {

/// A byte that may stand in a normalized word: a lowercase ASCII letter.
pub open spec fn is_letter_byte(b: u8) -> bool {
    97 <= b <= 122
}

/// The lowercase form of an ASCII byte: uppercase letters are folded,
/// everything else is left alone.
pub open spec fn lower_byte(b: u8) -> u8 {
    if 65 <= b <= 90 {
        (b + 32) as u8
    } else {
        b
    }
}

/// Case-insensitive image of a word: every byte folded to lowercase.
pub open spec fn lower_seq(s: Seq<u8>) -> Seq<u8> {
    s.map_values(|b: u8| lower_byte(b))
}

/// Executable case fold of one byte.
pub fn to_lower_byte(b: u8) -> (r: u8)
    ensures
        r == lower_byte(b),
{
    if 65 <= b && b <= 90 {
        b + 32
    } else {
        b
    }
}

/// What a raw input character contributes to a guess: its lowercase letter
/// byte if it is an ASCII letter, nothing otherwise.
pub open spec fn normalize_letter_spec(c: char) -> Option<u8> {
    let u: u32 = c as u32;
    if 97 <= u <= 122 {
        Some(u as u8)
    } else if 65 <= u <= 90 {
        Some((u + 32) as u8)
    } else {
        None
    }
}

/// Executable normalization of one input character.
pub fn normalize_letter(c: char) -> (r: Option<u8>)
    ensures
        r == normalize_letter_spec(c),
        r is Some ==> is_letter_byte(r.unwrap()),
{
    let u: u32 = c as u32;
    if 97 <= u && u <= 122 {
        Some(u as u8)
    } else if 65 <= u && u <= 90 {
        Some((u + 32) as u8)
    } else {
        None
    }
}

} // verus!
