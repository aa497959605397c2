//! Which texts are human-readable parts, and what is wrong with the others.

use vstd::prelude::*;
use vstd::utf8;

use super::ascii;
use super::error::Error;
use super::lemmas;

verus! {

/// The text holds a lower case letter.
pub open spec fn has_lower(text: Seq<char>) -> bool {
    exists|i: int| 0 <= i < text.len() && #[trigger] ascii::lower_char(text[i])
}

/// The text holds an upper case letter.
pub open spec fn has_upper(text: Seq<char>) -> bool {
    exists|i: int| 0 <= i < text.len() && #[trigger] ascii::upper_char(text[i])
}

/// The text holds letters of both cases.
pub open spec fn mixed_case(text: Seq<char>) -> bool {
    has_lower(text) && has_upper(text)
}

/// A human-readable part of at most `max_len` characters: between 1 and `max_len` characters, each
/// of them printable ASCII, and no mix of upper and lower case.
pub open spec fn valid_text(text: Seq<char>, max_len: nat) -> bool {
    &&& 1 <= text.len() <= max_len
    &&& forall|i: int| 0 <= i < text.len() ==> #[trigger] ascii::printable_char(text[i])
    &&& !mixed_case(text)
}

/// What is wrong with the character `c` behind a text of which the case of the letters is known.
pub open spec fn char_fault(c: char, after_lower: bool, after_upper: bool) -> Option<Error> {
    if !ascii::ascii_char(c) {
        Some(Error::NonAsciiChar(c))
    } else if !ascii::printable_char(c) {
        Some(Error::InvalidAsciiByte(c as u8))
    } else if ascii::lower_char(c) && after_upper || ascii::upper_char(c) && after_lower {
        Some(Error::MixedCase)
    } else {
        None
    }
}

/// What is wrong with the character at position `i` of the text, given those before it.
pub open spec fn fault_at(text: Seq<char>, i: int) -> Option<Error> {
    char_fault(text[i], has_lower(text.take(i)), has_upper(text.take(i)))
}

/// What is wrong with the first character of the text that something is wrong with.
pub open spec fn first_fault(text: Seq<char>) -> Option<Error>
    decreases text.len(),
{
    if text.len() == 0 {
        None
    } else {
        match first_fault(text.drop_last()) {
            Some(e) => Some(e),
            None => fault_at(text, text.len() - 1),
        }
    }
}

/// The length of a text in bytes of UTF-8, as far as a `usize` reaches.
pub open spec fn byte_len(text: Seq<char>) -> usize {
    let len = utf8::encode_utf8(text).len();
    if len <= usize::MAX {
        len as usize
    } else {
        usize::MAX
    }
}

/// The bytes of the human-readable part that a text is, or what is wrong with the text. A text that
/// is empty or too long is not looked at any further; the length counts bytes of UTF-8.
pub open spec fn checked(text: Seq<char>, max_len: nat) -> Result<Seq<u8>, Error> {
    if text.len() == 0 {
        Err(Error::Empty)
    } else if utf8::encode_utf8(text).len() > max_len {
        Err(Error::TooLong(byte_len(text)))
    } else {
        match first_fault(text) {
            Some(e) => Err(e),
            None => Ok(utf8::encode_utf8(text)),
        }
    }
}

/// Checks one character behind a text of which the case of the letters is known.
pub(crate) fn check_char(c: char, after_lower: bool, after_upper: bool) -> (r: Option<Error>)
    ensures
        r == char_fault(c, after_lower, after_upper),
{
    let code: u32 = c as u32;
    if code >= 128 {
        return Some(Error::NonAsciiChar(c));
    }
    let b: u8 = code as u8;
    if b < 33 || b > 126 {
        return Some(Error::InvalidAsciiByte(b));
    }
    if ascii::is_lower_char(c) && after_upper || ascii::is_upper_char(c) && after_lower {
        return Some(Error::MixedCase);
    }
    None
}

/// Checks the characters of `s` up to the first one that is at fault, behind a text without fault
/// of which the case of the letters is known. Returns that fault, or else the case of the letters.
pub(crate) fn scan(before: Ghost<Seq<char>>, s: &str, after_lower: bool, after_upper: bool) -> (r: (
    Option<Error>,
    bool,
    bool,
))
    requires
        first_fault(before@) is None,
        after_lower == has_lower(before@),
        after_upper == has_upper(before@),
    ensures
        r.0 == first_fault(before@ + s@),
        r.0 is None ==> {
            &&& r.1 == has_lower(before@ + s@)
            &&& r.2 == has_upper(before@ + s@)
        },
{
    let mut seen_lower: bool = after_lower;
    let mut seen_upper: bool = after_upper;
    assert(before@ + s@.take(0) =~= before@);
    for c in it: s.chars()
        invariant
            it.seq() == s@,
            first_fault(before@ + s@.take(it.index())) is None,
            seen_lower == has_lower(before@ + s@.take(it.index())),
            seen_upper == has_upper(before@ + s@.take(it.index())),
    {
        proof {
            let read = before@ + s@.take(it.index());
            assert(before@ + s@.take(it.index() + 1) =~= read.push(c));
            assert(before@ + s@ =~= read.push(c) + s@.skip(it.index() + 1));
            lemmas::lemma_case_push(read, c);
            lemmas::lemma_first_fault_push(read, c);
        }
        match check_char(c, seen_lower, seen_upper) {
            Some(e) => {
                proof {
                    let read = before@ + s@.take(it.index());
                    lemmas::lemma_first_fault_extend(read.push(c), s@.skip(it.index() + 1));
                }
                return (Some(e), seen_lower, seen_upper);
            },
            None => {
                seen_lower = seen_lower || ascii::is_lower_char(c);
                seen_upper = seen_upper || ascii::is_upper_char(c);
            },
        }
    }
    assert(s@.take(s@.len() as int) =~= s@);
    (None, seen_lower, seen_upper)
}

} // verus!
