//! Classes of ASCII characters and their case.

use vstd::prelude::*;

verus! {

/// A character of the 7-bit ASCII set.
pub open spec fn ascii_char(c: char) -> bool {
    (c as int) < 128
}

/// A character that a human-readable part may hold: printable ASCII without the space.
pub open spec fn printable_char(c: char) -> bool {
    33 <= c as int <= 126
}

/// A lower case ASCII letter.
pub open spec fn lower_char(c: char) -> bool {
    'a' as int <= c as int <= 'z' as int
}

/// An upper case ASCII letter.
pub open spec fn upper_char(c: char) -> bool {
    'A' as int <= c as int <= 'Z' as int
}

/// A byte that a human-readable part may hold: printable ASCII without the space.
pub open spec fn printable(b: u8) -> bool {
    33 <= b <= 126
}

/// The lower case of one byte: `A` to `Z` become `a` to `z`, all other bytes stay.
pub open spec fn lower_byte(b: u8) -> u8 {
    if 65 <= b <= 90 {
        (b + 32) as u8
    } else {
        b
    }
}

/// The upper case of one byte: `a` to `z` become `A` to `Z`, all other bytes stay.
pub open spec fn upper_byte(b: u8) -> u8 {
    if 97 <= b <= 122 {
        (b - 32) as u8
    } else {
        b
    }
}

/// The upper case of a byte string.
pub open spec fn upper(bytes: Seq<u8>) -> Seq<u8> {
    bytes.map_values(|b: u8| upper_byte(b))
}

/// The lower case of a byte string.
pub open spec fn lower(bytes: Seq<u8>) -> Seq<u8> {
    bytes.map_values(|b: u8| lower_byte(b))
}

/// The text that ASCII bytes stand for, one character for each byte.
pub open spec fn text(bytes: Seq<u8>) -> Seq<char> {
    bytes.map_values(|b: u8| b as char)
}

/// Tells whether a byte is an upper case ASCII letter.
pub fn is_ascii_uppercase(b: u8) -> (r: bool)
    ensures
        r == (65 <= b <= 90),
        r == upper_char(b as char),
{
    65 <= b && b <= 90
}

/// Tells whether a character is a lower case ASCII letter.
pub fn is_lower_char(c: char) -> (r: bool)
    ensures
        r == (97 <= c as int <= 122),
        r == lower_char(c),
{
    'a' <= c && c <= 'z'
}

/// Tells whether a character is an upper case ASCII letter.
pub fn is_upper_char(c: char) -> (r: bool)
    ensures
        r == (65 <= c as int <= 90),
        r == upper_char(c),
{
    'A' <= c && c <= 'Z'
}

/// The lower case of one byte.
pub fn to_lower(b: u8) -> (r: u8)
    ensures
        65 <= b <= 90 ==> r == b + 32,
        !(65 <= b <= 90) ==> r == b,
        r == lower_byte(b),
{
    if is_ascii_uppercase(b) {
        assert(b | 32 == b + 32) by (bit_vector)
            requires
                65 <= b <= 90,
        ;
        b | 32
    } else {
        b
    }
}

} // verus!
