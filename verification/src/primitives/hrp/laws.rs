//! What holds of human-readable parts across functions.
//!
//! Each law is a proof function over the same spec functions that the contracts speak of.

use core::cmp::Ordering;

use vstd::prelude::*;
use vstd::utf8;

use super::ascii;
use super::compare;
use super::lemmas;
use super::std_items;
use super::validity;
use super::{Error, Hrp, INLINE_LEN, MAX_LEN};

verus! {

/// The text of a parsed human-readable part is the text that was parsed, in its case.
pub proof fn law_parse_keeps_text(text: Seq<char>, max_len: nat, h: Hrp)
    requires
        validity::checked(text, max_len) == Ok::<Seq<u8>, Error>(h@),
    ensures
        ascii::text(h@) == text,
        h@ == utf8::encode_utf8(text),
{
    lemmas::lemma_checked_valid(text, max_len);
}

/// The text of a parsed human-readable part, which is what it displays as, parses again, to the same
/// bytes.
pub proof fn law_text_parses_again(text: Seq<char>, max_len: nat, h: Hrp)
    requires
        validity::checked(text, max_len) == Ok::<Seq<u8>, Error>(h@),
    ensures
        validity::checked(ascii::text(h@), max_len) == Ok::<Seq<u8>, Error>(h@),
{
    law_parse_keeps_text(text, max_len, h);
}

/// A parsed human-readable part has at least one character and at most as many as the limit.
pub proof fn law_parsed_length(text: Seq<char>, max_len: nat, h: Hrp)
    requires
        validity::checked(text, max_len) == Ok::<Seq<u8>, Error>(h@),
    ensures
        1 <= h@.len() <= max_len,
        h@.len() == text.len(),
{
    lemmas::lemma_checked_valid(text, max_len);
}

/// A text that is accepted under one limit is accepted under every larger one, with the same bytes.
pub proof fn law_limits_agree(text: Seq<char>, max_len: nat, larger: nat)
    requires
        max_len <= larger,
        validity::checked(text, max_len) is Ok,
    ensures
        validity::checked(text, larger) == validity::checked(text, max_len),
{
}

/// A text is rejected as empty only where it is, and as too long, with its full length, only where
/// it is neither empty nor within the limit: nothing else about it is looked at then.
pub proof fn law_length_comes_first(text: Seq<char>, max_len: nat)
    ensures
        validity::checked(text, max_len) == Err::<Seq<u8>, Error>(Error::Empty) <==> text.len()
            == 0,
        validity::checked(text, max_len) matches Err(Error::TooLong(n)) ==> {
            &&& text.len() > 0
            &&& utf8::encode_utf8(text).len() > max_len
            &&& n == validity::byte_len(text)
        },
        text.len() > 0 && utf8::encode_utf8(text).len() > max_len ==> validity::checked(
            text,
            max_len,
        ) == Err::<Seq<u8>, Error>(Error::TooLong(validity::byte_len(text))),
{
    lemma_fault_kinds(text);
}

/// A fault of a character is never one of length.
proof fn lemma_fault_kinds(text: Seq<char>)
    ensures
        validity::first_fault(text) matches Some(e) ==> !(e is Empty) && !(e is TooLong),
    decreases text.len(),
{
    if text.len() > 0 {
        lemma_fault_kinds(text.drop_last());
    }
}

/// Of the characters of a text of accepted length that are at fault, the first is reported.
pub proof fn law_first_fault_is_reported(text: Seq<char>, max_len: nat, i: int)
    requires
        0 <= i < text.len(),
        utf8::encode_utf8(text).len() <= max_len,
        validity::fault_at(text, i) is Some,
        forall|j: int| 0 <= j < i ==> #[trigger] validity::fault_at(text, j) is None,
    ensures
        validity::checked(text, max_len) == Err::<Seq<u8>, Error>(
            validity::fault_at(text, i).unwrap(),
        ),
{
    lemma_prefix_without_fault(text, i);
    let front = text.take(i);
    lemmas::lemma_first_fault_push(front, text[i]);
    lemmas::lemma_first_fault_extend(front.push(text[i]), text.skip(i + 1));
    assert(front.push(text[i]) + text.skip(i + 1) =~= text);
}

/// No fault up to a position is no fault of the text up to there.
proof fn lemma_prefix_without_fault(text: Seq<char>, i: int)
    requires
        0 <= i <= text.len(),
        forall|j: int| 0 <= j < i ==> #[trigger] validity::fault_at(text, j) is None,
    ensures
        validity::first_fault(text.take(i)) is None,
    decreases i,
{
    if i > 0 {
        lemma_prefix_without_fault(text, i - 1);
        lemmas::lemma_first_fault_push(text.take(i - 1), text[i - 1]);
        assert(text.take(i - 1).push(text[i - 1]) =~= text.take(i));
        assert(validity::fault_at(text, i - 1) is None);
    }
}

/// A text of accepted length is rejected only where a character of it is at fault.
pub proof fn law_rejected_only_for_a_fault(text: Seq<char>, max_len: nat)
    requires
        0 < text.len(),
        utf8::encode_utf8(text).len() <= max_len,
        validity::checked(text, max_len) is Err,
    ensures
        exists|i: int|
            0 <= i < text.len() && (#[trigger] validity::fault_at(text, i)) is Some
                && validity::checked(text, max_len) == Err::<Seq<u8>, Error>(
                validity::fault_at(text, i).unwrap(),
            ),
{
    lemma_fault_found(text);
}

/// A text with a fault has a character that is at fault in that way.
proof fn lemma_fault_found(text: Seq<char>)
    requires
        validity::first_fault(text) is Some,
    ensures
        exists|i: int|
            0 <= i < text.len() && #[trigger] validity::fault_at(text, i)
                == validity::first_fault(text),
    decreases text.len(),
{
    let front = text.drop_last();
    if validity::first_fault(front) is Some {
        lemma_fault_found(front);
        let i = choose|i: int|
            0 <= i < front.len() && #[trigger] validity::fault_at(front, i)
                == validity::first_fault(front);
        assert(front.take(i) =~= text.take(i));
        assert(validity::fault_at(text, i) == validity::first_fault(text));
    } else {
        assert(validity::fault_at(text, text.len() - 1) == validity::first_fault(text));
    }
}

/// The error tells what the text holds: the character, the byte, or letters of both cases.
pub proof fn law_error_is_about_the_text(text: Seq<char>, max_len: nat)
    ensures
        validity::checked(text, max_len) matches Err(Error::NonAsciiChar(c)) ==> text.contains(c)
            && !ascii::ascii_char(c),
        validity::checked(text, max_len) matches Err(Error::InvalidAsciiByte(b)) ==> text.contains(
            b as char,
        ) && b < 128 && !ascii::printable(b),
        validity::checked(text, max_len) matches Err(Error::MixedCase) ==> validity::mixed_case(
            text,
        ),
{
    if text.len() > 0 && utf8::encode_utf8(text).len() <= max_len && validity::checked(
        text,
        max_len,
    ) is Err {
        lemma_fault_found(text);
        let i = choose|i: int|
            0 <= i < text.len() && #[trigger] validity::fault_at(text, i)
                == validity::first_fault(text);
        let front = text.take(i);
        lemma_ascii_byte(text[i]);
        lemmas::lemma_case_push(front, text[i]);
        lemma_case_extend(front.push(text[i]), text.skip(i + 1));
        assert(front.push(text[i]) + text.skip(i + 1) =~= text);
    }
}

/// The byte of an ASCII character is that character.
proof fn lemma_ascii_byte(c: char)
    ensures
        ascii::ascii_char(c) ==> (c as u8) as char == c && (c as u8) < 128,
{
}

/// A longer text keeps the letters of a shorter one.
proof fn lemma_case_extend(text: Seq<char>, more: Seq<char>)
    ensures
        validity::has_lower(text) ==> validity::has_lower(text + more),
        validity::has_upper(text) ==> validity::has_upper(text + more),
    decreases more.len(),
{
    if more.len() == 0 {
        assert(text + more =~= text);
    } else {
        lemma_case_extend(text, more.drop_last());
        lemmas::lemma_case_push(text + more.drop_last(), more.last());
        assert((text + more.drop_last()).push(more.last()) =~= text + more);
    }
}

/// Where a text is a human-readable part, parsing without a check gives what the check gives.
pub proof fn law_unchecked_agrees_with_parse(text: Seq<char>, h: Hrp)
    requires
        validity::checked(text, MAX_LEN as nat) == Ok::<Seq<u8>, Error>(h@),
    ensures
        super::sanitized(utf8::encode_utf8(text)) == h@,
{
    lemmas::lemma_checked_valid(text, MAX_LEN as nat);
    assert(super::sanitized(h@) =~= h@);
}

/// Parsing without a check gives as many bytes as the text has, all of them printable ASCII; and at
/// least one where the text is not empty.
pub proof fn law_unchecked_is_printable(text: Seq<char>)
    ensures
        super::sanitized(utf8::encode_utf8(text)).len() == utf8::encode_utf8(text).len(),
        forall|i: int|
            0 <= i < utf8::encode_utf8(text).len() ==> #[trigger] ascii::printable(
                super::sanitized(utf8::encode_utf8(text))[i],
            ),
        text.len() > 0 ==> super::sanitized(utf8::encode_utf8(text)).len() > 0,
{
    if text.len() > 0 {
        assert(utf8::encode_scalar(text[0] as u32).len() > 0);
    }
}

/// Parsing without a check what was parsed without a check changes nothing.
pub proof fn law_unchecked_twice(bytes: Seq<u8>)
    ensures
        super::sanitized(super::sanitized(bytes)) == super::sanitized(bytes),
        utf8::encode_utf8(ascii::text(super::sanitized(bytes))) == super::sanitized(bytes),
{
    let clean = super::sanitized(bytes);
    assert(super::sanitized(clean) =~= clean);
    lemmas::lemma_printable_utf8(clean);
}

/// The string and the bytes of a human-readable part are the same, as bytes and as characters.
pub proof fn law_string_and_bytes_agree(h: Hrp)
    requires
        super::storable(h@),
    ensures
        utf8::encode_utf8(ascii::text(h@)) == h@,
        ascii::text(h@).len() == h@.len(),
{
    lemmas::lemma_printable_utf8(h@);
}

/// Lower case has no upper case letters, and lower case of lower case is the same.
pub proof fn law_lower_case(bytes: Seq<u8>)
    ensures
        ascii::lower(bytes).len() == bytes.len(),
        forall|i: int|
            0 <= i < bytes.len() ==> !ascii::upper_char(#[trigger] ascii::lower(bytes)[i] as char),
        ascii::lower(ascii::lower(bytes)) == ascii::lower(bytes),
{
    assert(ascii::lower(ascii::lower(bytes)) =~= ascii::lower(bytes));
}

/// The lower case of a parsed human-readable part parses, to an equal one.
pub proof fn law_lower_case_parses(text: Seq<char>, max_len: nat, h: Hrp, l: Hrp)
    requires
        validity::checked(text, max_len) == Ok::<Seq<u8>, Error>(h@),
        l@ == ascii::lower(h@),
    ensures
        validity::checked(ascii::text(ascii::lower(h@)), max_len) == Ok::<Seq<u8>, Error>(l@),
        compare::equal(l, h),
{
    lemmas::lemma_checked_valid(text, max_len);
    law_lower_case(h@);
    let small = ascii::text(l@);
    assert forall|i: int| 0 <= i < small.len() implies #[trigger] ascii::printable_char(small[i])
        && !ascii::upper_char(small[i]) by {
        assert(ascii::printable(h@[i]));
        assert(small[i] == ascii::lower(h@)[i] as char);
    }
    lemmas::lemma_printable_bytes(small);
    lemmas::lemma_checked_valid(small, max_len);
    assert(utf8::encode_utf8(small) =~= l@);
}

/// The upper case of a parsed human-readable part parses, to an equal one.
pub proof fn law_upper_case_parses(text: Seq<char>, max_len: nat, h: Hrp, u: Hrp)
    requires
        validity::checked(text, max_len) == Ok::<Seq<u8>, Error>(h@),
        u@ == ascii::upper(h@),
    ensures
        validity::checked(ascii::text(ascii::upper(h@)), max_len) == Ok::<Seq<u8>, Error>(u@),
        compare::equal(u, h),
{
    lemmas::lemma_checked_valid(text, max_len);
    let large = ascii::text(u@);
    assert forall|i: int| 0 <= i < large.len() implies #[trigger] ascii::printable_char(large[i])
        && !ascii::lower_char(large[i]) by {
        assert(ascii::printable(h@[i]));
        assert(large[i] == ascii::upper(h@)[i] as char);
    }
    lemmas::lemma_printable_bytes(large);
    lemmas::lemma_checked_valid(large, max_len);
    assert(utf8::encode_utf8(large) =~= u@);
    assert(ascii::lower(u@) =~= ascii::lower(h@));
}

/// Equality is an equivalence.
pub proof fn law_equality(a: Hrp, b: Hrp, c: Hrp)
    ensures
        compare::equal(a, a),
        compare::equal(a, b) == compare::equal(b, a),
        compare::equal(a, b) && compare::equal(b, c) ==> compare::equal(a, c),
{
}

/// Two human-readable parts are equal where they differ in the case of letters alone.
pub proof fn law_equality_ignores_case(a: Hrp, b: Hrp)
    ensures
        compare::equal(a, b) <==> a@.len() == b@.len() && (forall|
            i: int,
        |
            0 <= i < a@.len() ==> ascii::lower_byte(#[trigger] a@[i]) == ascii::lower_byte(b@[i])),
{
    if a@.len() == b@.len() && (forall|i: int|
        0 <= i < a@.len() ==> ascii::lower_byte(#[trigger] a@[i]) == ascii::lower_byte(b@[i])) {
        assert(ascii::lower(a@) =~= ascii::lower(b@));
    }
    if ascii::lower(a@) == ascii::lower(b@) {
        assert(ascii::lower(a@).len() == ascii::lower(b@).len());
        assert forall|i: int| 0 <= i < a@.len() implies ascii::lower_byte(#[trigger] a@[i])
            == ascii::lower_byte(b@[i]) by {
            assert(ascii::lower(a@)[i] == ascii::lower(b@)[i]);
        }
    }
}

/// Equal human-readable parts feed the same to a hasher: what the one can make of it, so can the
/// other.
pub proof fn law_equal_parts_hash_alike<H: core::hash::Hasher>(
    a: Hrp,
    b: Hrp,
    before: H,
    after: H,
)
    requires
        compare::equal(a, b),
    ensures
        compare::hash_items(a@) == compare::hash_items(b@),
        std_items::fed_all(before, compare::hash_items(a@), after) <==> std_items::fed_all(
            before,
            compare::hash_items(b@),
            after,
        ),
{
    law_equality_ignores_case(a, b);
}

/// The order says equal of equal human-readable parts and of no others.
pub proof fn law_order_agrees_with_equality(a: Hrp, b: Hrp)
    ensures
        compare::order(a, b) == Ordering::Equal <==> compare::equal(a, b),
{
    lemma_order_equal(ascii::lower(a@), ascii::lower(b@));
}

/// The order of two human-readable parts is the reverse of the order of the two exchanged.
pub proof fn law_order_is_antisymmetric(a: Hrp, b: Hrp)
    ensures
        compare::order(a, b) == Ordering::Less <==> compare::order(b, a) == Ordering::Greater,
{
    lemma_order_reverse(ascii::lower(a@), ascii::lower(b@));
}

/// The order is transitive.
pub proof fn law_order_is_transitive(a: Hrp, b: Hrp, c: Hrp)
    requires
        compare::order(a, b) == Ordering::Less,
        compare::order(b, c) == Ordering::Less,
    ensures
        compare::order(a, c) == Ordering::Less,
{
    lemma_order_transitive(ascii::lower(a@), ascii::lower(b@), ascii::lower(c@));
}

/// The order does not tell equal human-readable parts apart.
pub proof fn law_order_respects_equality(a: Hrp, b: Hrp, c: Hrp)
    requires
        compare::equal(a, b),
    ensures
        compare::order(a, c) == compare::order(b, c),
{
}

proof fn lemma_order_equal(a: Seq<u8>, b: Seq<u8>)
    ensures
        compare::byte_order(a, b) == Ordering::Equal <==> a == b,
    decreases a.len(),
{
    if a.len() == 0 || b.len() == 0 {
        assert(a.len() == 0 && b.len() == 0 ==> a =~= b);
    } else if a[0] == b[0] {
        lemma_order_equal(a.drop_first(), b.drop_first());
        if a.drop_first() == b.drop_first() {
            assert(a =~= seq![a[0]] + a.drop_first());
            assert(b =~= seq![b[0]] + b.drop_first());
        }
    }
}

proof fn lemma_order_reverse(a: Seq<u8>, b: Seq<u8>)
    ensures
        compare::byte_order(a, b) == Ordering::Less <==> compare::byte_order(b, a)
            == Ordering::Greater,
    decreases a.len(),
{
    if a.len() > 0 && b.len() > 0 && a[0] == b[0] {
        lemma_order_reverse(a.drop_first(), b.drop_first());
    }
}

proof fn lemma_order_transitive(a: Seq<u8>, b: Seq<u8>, c: Seq<u8>)
    requires
        compare::byte_order(a, b) == Ordering::Less,
        compare::byte_order(b, c) == Ordering::Less,
    ensures
        compare::byte_order(a, c) == Ordering::Less,
    decreases a.len(),
{
    if a.len() > 0 && a[0] == b[0] && b[0] == c[0] {
        lemma_order_transitive(a.drop_first(), b.drop_first(), c.drop_first());
    }
}

/// No human-readable part is valid on two of mainnet, testnet and regtest.
pub proof fn law_networks_are_apart(h: Hrp)
    ensures
        !(ascii::lower(h@) == super::bc() && ascii::lower(h@) == super::tb()),
        !(ascii::lower(h@) == super::bc() && ascii::lower(h@) == super::bcrt()),
        !(ascii::lower(h@) == super::tb() && ascii::lower(h@) == super::bcrt()),
{
    assert(super::bc()[0] != super::tb()[0]);
    assert(super::bc().len() != super::bcrt().len());
    assert(super::tb().len() != super::bcrt().len());
}

/// Equal human-readable parts are valid on the same networks.
pub proof fn law_networks_ignore_case(a: Hrp, b: Hrp, network: Seq<u8>)
    requires
        compare::equal(a, b),
    ensures
        ascii::lower(a@) == network <==> ascii::lower(b@) == network,
{
}

/// What is accepted under the limit of the storage in place is stored in place, within the heap
/// block that every human-readable part has, and without a second one for its bytes.
pub proof fn law_short_parts_are_stored_in_place(text: Seq<char>, h: Hrp)
    requires
        validity::checked(text, INLINE_LEN as nat) == Ok::<Seq<u8>, Error>(h@),
    ensures
        h@.len() <= INLINE_LEN,
{
}

/// Writing one printable byte of a human-readable part leaves a human-readable part: one of the same
/// length, stored where it was before, with every other byte as it was.
pub proof fn law_byte_is_written_alone(h: Hrp, i: int, b: u8)
    requires
        super::storable(h@),
        0 <= i < h@.len(),
        ascii::printable(b),
    ensures
        super::storable(h@.update(i, b)),
        h@.update(i, b).len() == h@.len(),
        h@.update(i, b).len() <= INLINE_LEN <==> h@.len() <= INLINE_LEN,
        h@.update(i, b)[i] == b,
        forall|j: int| 0 <= j < h@.len() && j != i ==> h@.update(i, b)[j] == h@[j],
{
}

/// A text in two pieces is as valid as the text in one: what is written to a formatter in pieces is
/// checked as a whole, and its bytes are those of the pieces behind each other.
pub proof fn law_pieces_make_the_whole(a: Seq<char>, b: Seq<char>, max_len: nat)
    ensures
        utf8::encode_utf8(a + b) == utf8::encode_utf8(a) + utf8::encode_utf8(b),
        validity::first_fault(a) is Some ==> validity::first_fault(a + b) == validity::first_fault(
            a,
        ),
        validity::checked(a + b, max_len) is Ok && a.len() > 0 ==> validity::checked(a, max_len)
            is Ok,
{
    lemmas::lemma_encode_concat(a, b);
    if validity::first_fault(a) is Some {
        lemmas::lemma_first_fault_extend(a, b);
    }
}

} // verus!
