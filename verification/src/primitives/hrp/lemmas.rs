//! Facts about texts and their bytes that the proofs of this module share.

use vstd::prelude::*;
use vstd::utf8;

use super::ascii;
use super::validity;

verus! {

/// One more character adds its own case to that of the text.
pub(crate) proof fn lemma_case_push(text: Seq<char>, c: char)
    ensures
        validity::has_lower(text.push(c)) == (validity::has_lower(text) || ascii::lower_char(c)),
        validity::has_upper(text.push(c)) == (validity::has_upper(text) || ascii::upper_char(c)),
{
    let longer = text.push(c);
    assert(longer[text.len() as int] == c);
    if validity::has_lower(text) {
        let i = choose|i: int| 0 <= i < text.len() && #[trigger] ascii::lower_char(text[i]);
        assert(ascii::lower_char(longer[i]));
    }
    if validity::has_upper(text) {
        let i = choose|i: int| 0 <= i < text.len() && #[trigger] ascii::upper_char(text[i]);
        assert(ascii::upper_char(longer[i]));
    }
    if validity::has_lower(longer) {
        let i = choose|i: int| 0 <= i < longer.len() && #[trigger] ascii::lower_char(longer[i]);
        assert(i < text.len() ==> ascii::lower_char(text[i]));
    }
    if validity::has_upper(longer) {
        let i = choose|i: int| 0 <= i < longer.len() && #[trigger] ascii::upper_char(longer[i]);
        assert(i < text.len() ==> ascii::upper_char(text[i]));
    }
}

/// One more character can only be at fault where none before it was.
pub(crate) proof fn lemma_first_fault_push(text: Seq<char>, c: char)
    ensures
        validity::first_fault(text.push(c)) == match validity::first_fault(text) {
            Some(e) => Some(e),
            None => validity::char_fault(c, validity::has_lower(text), validity::has_upper(text)),
        },
{
    assert(text.push(c).drop_last() =~= text);
    assert(text.push(c).take(text.len() as int) =~= text);
}

/// The first fault of a text is that of every longer text.
pub(crate) proof fn lemma_first_fault_extend(text: Seq<char>, more: Seq<char>)
    requires
        validity::first_fault(text) is Some,
    ensures
        validity::first_fault(text + more) == validity::first_fault(text),
    decreases more.len(),
{
    if more.len() == 0 {
        assert(text + more =~= text);
    } else {
        assert((text + more).drop_last() =~= text + more.drop_last());
        lemma_first_fault_extend(text, more.drop_last());
    }
}

/// A text is without fault where it is printable ASCII of one case.
pub(crate) proof fn lemma_no_fault(text: Seq<char>)
    ensures
        validity::first_fault(text) is None <==> {
            &&& forall|i: int| 0 <= i < text.len() ==> #[trigger] ascii::printable_char(text[i])
            &&& !validity::mixed_case(text)
        },
    decreases text.len(),
{
    if text.len() > 0 {
        let front = text.drop_last();
        let c = text.last();
        lemma_no_fault(front);
        lemma_first_fault_push(front, c);
        lemma_case_push(front, c);
        assert(front.push(c) =~= text);
        assert(forall|i: int| 0 <= i < front.len() ==> front[i] == text[i]);
        if forall|i: int| 0 <= i < text.len() ==> #[trigger] ascii::printable_char(text[i]) {
            assert(ascii::printable_char(text[text.len() - 1]));
            assert forall|i: int| 0 <= i < front.len() implies #[trigger] ascii::printable_char(
                front[i],
            ) by {
                assert(ascii::printable_char(text[i]));
            }
        }
    }
}

/// The bytes of printable text are its characters, one for one.
pub(crate) proof fn lemma_printable_bytes(text: Seq<char>)
    requires
        forall|i: int| 0 <= i < text.len() ==> #[trigger] ascii::printable_char(text[i]),
    ensures
        utf8::encode_utf8(text).len() == text.len(),
        forall|i: int| 0 <= i < text.len() ==> #[trigger] utf8::encode_utf8(text)[i] == text[i] as u8,
        forall|i: int| 0 <= i < text.len() ==> #[trigger] ascii::printable(utf8::encode_utf8(text)[i]),
        ascii::text(utf8::encode_utf8(text)) == text,
{
    let bytes = utf8::encode_utf8(text);
    assert forall|i: int| 0 <= i < text.len() implies '\0' <= #[trigger] text[i] <= '\u{7f}' by {
        assert(ascii::printable_char(text[i]));
    }
    utf8::is_ascii_chars_encode_utf8(text);
    assert forall|i: int| 0 <= i < text.len() implies #[trigger] ascii::printable(bytes[i])
        && ascii::text(bytes)[i] == text[i] by {
        assert(ascii::printable_char(text[i]));
        assert(bytes[i] == text[i] as u8);
    }
    assert(ascii::text(bytes) =~= text);
}

/// A text passes the check where it is a human-readable part.
pub(crate) proof fn lemma_checked_valid(text: Seq<char>, max_len: nat)
    ensures
        validity::checked(text, max_len) is Ok <==> validity::valid_text(text, max_len),
        validity::checked(text, max_len) matches Ok(bytes) ==> {
            &&& bytes.len() == text.len()
            &&& forall|i: int| 0 <= i < bytes.len() ==> #[trigger] ascii::printable(bytes[i])
            &&& ascii::text(bytes) == text
        },
{
    lemma_no_fault(text);
    if forall|i: int| 0 <= i < text.len() ==> #[trigger] ascii::printable_char(text[i]) {
        lemma_printable_bytes(text);
    }
}

/// The bytes of two texts behind each other are the bytes of the one behind those of the other.
pub(crate) proof fn lemma_encode_concat(a: Seq<char>, b: Seq<char>)
    ensures
        utf8::encode_utf8(a + b) == utf8::encode_utf8(a) + utf8::encode_utf8(b),
    decreases a.len(),
{
    if a.len() == 0 {
        assert(a + b =~= b);
        assert(utf8::encode_utf8(a) + utf8::encode_utf8(b) =~= utf8::encode_utf8(b));
    } else {
        assert((a + b).drop_first() =~= a.drop_first() + b);
        lemma_encode_concat(a.drop_first(), b);
        assert(utf8::encode_utf8(a + b) =~= utf8::encode_utf8(a) + utf8::encode_utf8(b));
    }
}

/// Printable bytes are the UTF-8 of the text that they stand for.
pub(crate) proof fn lemma_printable_utf8(bytes: Seq<u8>)
    requires
        forall|i: int| 0 <= i < bytes.len() ==> #[trigger] ascii::printable(bytes[i]),
    ensures
        utf8::encode_utf8(ascii::text(bytes)) == bytes,
        utf8::valid_utf8(bytes),
        utf8::decode_utf8(bytes) == ascii::text(bytes),
{
    let text = ascii::text(bytes);
    assert forall|i: int| 0 <= i < text.len() implies #[trigger] ascii::printable_char(text[i]) by {
        assert(ascii::printable(bytes[i]));
    }
    lemma_printable_bytes(text);
    assert(utf8::encode_utf8(text) =~= bytes);
    utf8::encode_utf8_valid_utf8(text);
    utf8::encode_utf8_decode_utf8(text);
}

} // verus!
