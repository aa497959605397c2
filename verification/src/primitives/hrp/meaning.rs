//! What the operations on human-readable parts come to, by position and by number.
//!
//! The laws here say of each result what it is in terms of the bytes or characters that went in,
//! with the codes of the characters written out.

use core::cmp::Ordering;

use vstd::prelude::*;
use vstd::std_specs::cmp::{PartialEqSpec, PartialOrdSpec};
use vstd::std_specs::iter::IteratorSpec;
use vstd::utf8;

use super::ascii;
use super::compare;
use super::error;
use super::lemmas;
use super::numeral;
use super::std_items;
use super::std_items::HashItem;
use super::validity;
use super::{
    ByteIter, CharIter, Error, Hrp, LowercaseByteIter, LowercaseCharIter, INLINE_LEN, MAX_LEN,
};

verus! {

/// A human-readable part has at most 83 bytes, of which up to 7 are stored in place.
pub proof fn law_sizes()
    ensures
        MAX_LEN == 83,
        INLINE_LEN == 7,
{
}

/// Lower case adds 32 to the bytes from 65 to 90 and keeps every other byte: what has no upper case
/// letter stays as it is, and what differs in case alone becomes the same.
pub proof fn law_lower_case_by_number(bytes: Seq<u8>)
    ensures
        ascii::lower(bytes).len() == bytes.len(),
        forall|i: int|
            0 <= i < bytes.len() && 65 <= bytes[i] <= 90 ==> #[trigger] ascii::lower(bytes)[i]
                == bytes[i] + 32,
        forall|i: int|
            0 <= i < bytes.len() && !(65 <= bytes[i] <= 90) ==> #[trigger] ascii::lower(bytes)[i]
                == bytes[i],
        (forall|i: int| 0 <= i < bytes.len() ==> !(65 <= #[trigger] bytes[i] <= 90))
            ==> ascii::lower(bytes) == bytes,
        ascii::upper(ascii::lower(bytes)) == ascii::upper(bytes),
        ascii::lower(ascii::upper(bytes)) == ascii::lower(bytes),
{
    assert(ascii::upper(ascii::lower(bytes)) =~= ascii::upper(bytes));
    assert(ascii::lower(ascii::upper(bytes)) =~= ascii::lower(bytes));
    if forall|i: int| 0 <= i < bytes.len() ==> !(65 <= #[trigger] bytes[i] <= 90) {
        assert(ascii::lower(bytes) =~= bytes);
    }
}

/// Upper case takes 32 from the bytes from 97 to 122 and keeps every other byte.
pub proof fn law_upper_case_by_number(bytes: Seq<u8>)
    ensures
        ascii::upper(bytes).len() == bytes.len(),
        forall|i: int|
            0 <= i < bytes.len() && 97 <= bytes[i] <= 122 ==> #[trigger] ascii::upper(bytes)[i]
                == bytes[i] - 32,
        forall|i: int|
            0 <= i < bytes.len() && !(97 <= bytes[i] <= 122) ==> #[trigger] ascii::upper(bytes)[i]
                == bytes[i],
{
}

/// The text of bytes has one character for each of them, with the byte as its code.
pub proof fn law_text_by_number(bytes: Seq<u8>)
    ensures
        ascii::text(bytes).len() == bytes.len(),
        forall|i: int|
            0 <= i < bytes.len() ==> #[trigger] ascii::text(bytes)[i] as int == bytes[i],
{
}

/// The classes of characters, by the codes of their members: ASCII up to 127, printable from 33 to
/// 126, lower case from 97 to 122, upper case from 65 to 90.
pub proof fn law_classes_by_number(c: char, b: u8)
    ensures
        ascii::ascii_char(c) <==> c as int <= 127,
        ascii::printable_char(c) <==> 33 <= c as int <= 126,
        ascii::lower_char(c) <==> 97 <= c as int <= 122,
        ascii::upper_char(c) <==> 65 <= c as int <= 90,
        ascii::printable(b) <==> 33 <= b <= 126,
{
}

/// What an `Hrp` holds is at most 83 bytes, each of them from 33 to 126.
pub proof fn law_storable_by_number(bytes: Seq<u8>)
    ensures
        super::storable(bytes) <==> bytes.len() <= 83 && (forall|i: int|
            0 <= i < bytes.len() ==> 33 <= #[trigger] bytes[i] <= 126),
{
    if super::storable(bytes) {
        assert forall|i: int| 0 <= i < bytes.len() implies 33 <= #[trigger] bytes[i] <= 126 by {
            assert(ascii::printable(bytes[i]));
        }
    }
}

/// Each iterator yields what it has left, from the front and from the back.
pub proof fn law_iterators_yield_the_rest(
    bytes: ByteIter<'_>,
    chars: CharIter<'_>,
    lower_bytes: LowercaseByteIter<'_>,
    lower_chars: LowercaseCharIter<'_>,
)
    ensures
        bytes.obeys_prophetic_iter_laws() && bytes.remaining() == bytes.rest(),
        chars.obeys_prophetic_iter_laws() && chars.remaining() == chars.rest(),
        lower_bytes.obeys_prophetic_iter_laws() && lower_bytes.remaining() == lower_bytes.rest(),
        lower_chars.obeys_prophetic_iter_laws() && lower_chars.remaining() == lower_chars.rest(),
{
}

/// Parsing without a check puts 88, the letter `X`, where a byte is below 33 or above 126, and
/// keeps every other byte.
pub proof fn law_unchecked_by_number(bytes: Seq<u8>)
    ensures
        super::sanitized(bytes).len() == bytes.len(),
        forall|i: int|
            0 <= i < bytes.len() && (bytes[i] < 33 || bytes[i] > 126) ==> #[trigger]
                super::sanitized(bytes)[i] == 88,
        forall|i: int|
            0 <= i < bytes.len() && 33 <= bytes[i] <= 126 ==> #[trigger] super::sanitized(bytes)[i]
                == bytes[i],
{
}

/// A text is accepted where it has at least one character and at most as many as the limit, each
/// with a code from 33 to 126, and not both a code from 65 to 90 and one from 97 to 122. What is
/// accepted has the codes of the text as its bytes.
pub proof fn law_accepted_by_number(text: Seq<char>, max_len: nat)
    ensures
        validity::checked(text, max_len) is Ok <==> {
            &&& 1 <= text.len() <= max_len
            &&& forall|i: int| 0 <= i < text.len() ==> 33 <= (#[trigger] text[i]) as int <= 126
            &&& forall|i: int, j: int|
                0 <= i < text.len() && 0 <= j < text.len() ==> !(65 <= (
                #[trigger] text[i]) as int <= 90 && 97 <= (#[trigger] text[j]) as int <= 122)
        },
        validity::valid_text(text, max_len) <==> validity::checked(text, max_len) is Ok,
        validity::checked(text, max_len) matches Ok(bytes) ==> {
            &&& bytes.len() == text.len()
            &&& forall|i: int| 0 <= i < text.len() ==> #[trigger] bytes[i] == text[i] as int
        },
{
    lemmas::lemma_checked_valid(text, max_len);
    if forall|i: int| 0 <= i < text.len() ==> 33 <= (#[trigger] text[i]) as int <= 126 {
        assert forall|i: int| 0 <= i < text.len() implies #[trigger] ascii::printable_char(
            text[i],
        ) by {}
        lemmas::lemma_printable_bytes(text);
    }
    if forall|i: int| 0 <= i < text.len() ==> #[trigger] ascii::printable_char(text[i]) {
        assert forall|i: int| 0 <= i < text.len() implies 33 <= (#[trigger] text[i]) as int
            <= 126 by {
            assert(ascii::printable_char(text[i]));
        }
    }
    lemma_mixed_case(text);
}

/// A text mixes cases where it has both a code from 65 to 90 and one from 97 to 122.
proof fn lemma_mixed_case(text: Seq<char>)
    ensures
        validity::mixed_case(text) <==> !(forall|i: int, j: int|
            0 <= i < text.len() && 0 <= j < text.len() ==> !(65 <= (#[trigger] text[i]) as int <= 90
                && 97 <= (#[trigger] text[j]) as int <= 122)),
{
    if validity::mixed_case(text) {
        let i = choose|i: int| 0 <= i < text.len() && #[trigger] ascii::upper_char(text[i]);
        let j = choose|j: int| 0 <= j < text.len() && #[trigger] ascii::lower_char(text[j]);
        assert(65 <= text[i] as int <= 90 && 97 <= text[j] as int <= 122);
    } else {
        assert forall|i: int, j: int| 0 <= i < text.len() && 0 <= j < text.len() implies !(65 <= (
        #[trigger] text[i]) as int <= 90 && 97 <= (#[trigger] text[j]) as int <= 122) by {
            assert(ascii::upper_char(text[i]) ==> validity::has_upper(text));
            assert(ascii::lower_char(text[j]) ==> validity::has_lower(text));
        }
    }
}

/// A text of both cases is rejected, wherever its letters are.
pub proof fn law_mixed_case_is_rejected(text: Seq<char>, max_len: nat, i: int, j: int)
    requires
        0 <= i < text.len(),
        0 <= j < text.len(),
        65 <= text[i] as int <= 90,
        97 <= text[j] as int <= 122,
    ensures
        validity::checked(text, max_len) is Err,
{
    law_accepted_by_number(text, max_len);
}

/// A text of accepted length is rejected for the first character that is not ASCII, has a code below
/// 33 or that of 127, or is a letter of the other case than one before it, and for what that
/// character is.
pub proof fn law_first_fault_by_number(text: Seq<char>, max_len: nat, i: int)
    requires
        0 <= i < text.len(),
        utf8::encode_utf8(text).len() <= max_len,
        forall|j: int| 0 <= j < i ==> 33 <= (#[trigger] text[j]) as int <= 126,
        forall|j: int, k: int|
            0 <= j < i && 0 <= k < i ==> !(65 <= (#[trigger] text[j]) as int <= 90 && 97 <= (
            #[trigger] text[k]) as int <= 122),
    ensures
        text[i] as int > 127 ==> validity::checked(text, max_len) == Err::<Seq<u8>, Error>(
            Error::NonAsciiChar(text[i]),
        ),
        0 <= (text[i] as int) < 33 || text[i] as int == 127 ==> validity::checked(text, max_len)
            == Err::<Seq<u8>, Error>(Error::InvalidAsciiByte(text[i] as u8)),
        65 <= text[i] as int <= 90 && (exists|j: int|
            0 <= j < i && 97 <= (#[trigger] text[j]) as int <= 122) ==> validity::checked(
            text,
            max_len,
        ) == Err::<Seq<u8>, Error>(Error::MixedCase),
        97 <= text[i] as int <= 122 && (exists|j: int|
            0 <= j < i && 65 <= (#[trigger] text[j]) as int <= 90) ==> validity::checked(
            text,
            max_len,
        ) == Err::<Seq<u8>, Error>(Error::MixedCase),
{
    let front = text.take(i);
    assert forall|j: int| 0 <= j < front.len() implies #[trigger] ascii::printable_char(
        front[j],
    ) by {
        assert(front[j] == text[j]);
    }
    assert forall|j: int, k: int| 0 <= j < front.len() && 0 <= k < front.len() implies !(65 <= (
    #[trigger] front[j]) as int <= 90 && 97 <= (#[trigger] front[k]) as int <= 122) by {
        assert(front[j] == text[j] && front[k] == text[k]);
    }
    lemma_mixed_case(front);
    lemmas::lemma_no_fault(front);
    lemmas::lemma_first_fault_push(front, text[i]);
    if exists|j: int| 0 <= j < i && 97 <= (#[trigger] text[j]) as int <= 122 {
        let j = choose|j: int| 0 <= j < i && 97 <= (#[trigger] text[j]) as int <= 122;
        assert(ascii::lower_char(front[j]));
    }
    if exists|j: int| 0 <= j < i && 65 <= (#[trigger] text[j]) as int <= 90 {
        let j = choose|j: int| 0 <= j < i && 65 <= (#[trigger] text[j]) as int <= 90;
        assert(ascii::upper_char(front[j]));
    }
    if validity::first_fault(front.push(text[i])) is Some {
        lemmas::lemma_first_fault_extend(front.push(text[i]), text.skip(i + 1));
        assert(front.push(text[i]) + text.skip(i + 1) =~= text);
    }
}

/// A text without characters is empty, and one of more bytes than the limit is too long, by as many
/// bytes as its UTF-8 has; nothing else about it counts.
pub proof fn law_length_by_number(text: Seq<char>, max_len: nat)
    ensures
        text.len() == 0 <==> validity::checked(text, max_len) == Err::<Seq<u8>, Error>(
            Error::Empty,
        ),
        text.len() > 0 && max_len < utf8::encode_utf8(text).len() <= usize::MAX
            ==> (validity::checked(text, max_len) matches Err(Error::TooLong(n)) && n
            == utf8::encode_utf8(text).len()),
        text.len() > 0 && utf8::encode_utf8(text).len() > max_len && utf8::encode_utf8(text).len()
            > usize::MAX ==> validity::checked(text, max_len) == Err::<Seq<u8>, Error>(
            Error::TooLong(usize::MAX),
        ),
        validity::checked(text, max_len) matches Err(Error::TooLong(n)) ==> n > 0
            && utf8::encode_utf8(text).len() > max_len,
{
    super::laws::law_length_comes_first(text, max_len);
    if text.len() > 0 {
        assert(utf8::encode_scalar(text[0] as u32).len() > 0);
    }
}

/// Two human-readable parts are equal where they have the same length and, byte by byte, are the same
/// or differ by 32 between a code from 65 to 90 and the lower case of it.
pub proof fn law_equality_by_number(a: Hrp, b: Hrp)
    ensures
        a.eq_spec(&b) <==> compare::equal(a, b),
        compare::equal(a, b) <==> a@.len() == b@.len() && (forall|i: int|
            0 <= i < a@.len() ==> {
                ||| #[trigger] a@[i] == b@[i]
                ||| 65 <= a@[i] <= 90 && b@[i] == a@[i] + 32
                ||| 65 <= b@[i] <= 90 && a@[i] == b@[i] + 32
            }),
        Hrp::obeys_eq_spec(),
{
    super::laws::law_equality_ignores_case(a, b);
}

/// Of two human-readable parts that agree in lower case up to a position and differ there, the one
/// with the smaller byte comes first, whatever their lengths.
pub proof fn law_order_by_first_difference(a: Hrp, b: Hrp, k: int)
    requires
        0 <= k < a@.len(),
        k < b@.len(),
        forall|i: int| 0 <= i < k ==> #[trigger] ascii::lower(a@)[i] == ascii::lower(b@)[i],
        ascii::lower(a@)[k] < ascii::lower(b@)[k],
    ensures
        compare::order(a, b) == Ordering::Less,
        compare::order(b, a) == Ordering::Greater,
{
    lemma_first_difference(ascii::lower(a@), ascii::lower(b@), k);
}

proof fn lemma_first_difference(a: Seq<u8>, b: Seq<u8>, k: int)
    requires
        0 <= k < a.len(),
        k < b.len(),
        forall|i: int| 0 <= i < k ==> #[trigger] a[i] == b[i],
        a[k] < b[k],
    ensures
        compare::byte_order(a, b) == Ordering::Less,
        compare::byte_order(b, a) == Ordering::Greater,
    decreases k,
{
    if k > 0 {
        assert(a[0] == b[0]);
        lemma_first_difference(a.drop_first(), b.drop_first(), k - 1);
    }
}

/// A human-readable part that is the beginning of a longer one, in lower case, comes before it.
pub proof fn law_order_of_a_beginning(a: Hrp, b: Hrp)
    requires
        a@.len() < b@.len(),
        forall|i: int| 0 <= i < a@.len() ==> #[trigger] ascii::lower(a@)[i] == ascii::lower(b@)[i],
    ensures
        compare::order(a, b) == Ordering::Less,
        compare::order(b, a) == Ordering::Greater,
{
    lemma_beginning(ascii::lower(a@), ascii::lower(b@));
}

proof fn lemma_beginning(a: Seq<u8>, b: Seq<u8>)
    requires
        a.len() < b.len(),
        forall|i: int| 0 <= i < a.len() ==> #[trigger] a[i] == b[i],
    ensures
        compare::byte_order(a, b) == Ordering::Less,
        compare::byte_order(b, a) == Ordering::Greater,
    decreases a.len(),
{
    if a.len() > 0 {
        assert(a[0] == b[0]);
        lemma_beginning(a.drop_first(), b.drop_first());
    }
}

/// Of any two human-readable parts that are not equal one comes first, for one of two reasons: a
/// smaller byte in lower case at the first position where they differ, or being the beginning of the
/// other. `partial_cmp` and `<` go by the same order.
pub proof fn law_order_has_a_reason(a: Hrp, b: Hrp)
    ensures
        Hrp::obeys_partial_cmp_spec(),
        a.partial_cmp_spec(&b) == Some(compare::order(a, b)),
        compare::order(a, b) == Ordering::Less ==> {
            ||| a@.len() < b@.len() && forall|i: int|
                0 <= i < a@.len() ==> #[trigger] ascii::lower(a@)[i] == ascii::lower(b@)[i]
            ||| exists|k: int|
                0 <= k < a@.len() && k < b@.len() && #[trigger] ascii::lower(a@)[k]
                    < ascii::lower(b@)[k] && forall|i: int|
                    0 <= i < k ==> #[trigger] ascii::lower(a@)[i] == ascii::lower(b@)[i]
        },
        compare::order(a, b) == Ordering::Equal <==> a@.len() == b@.len() && forall|i: int|
            0 <= i < a@.len() ==> #[trigger] ascii::lower(a@)[i] == ascii::lower(b@)[i],
        compare::order(a, b) == Ordering::Greater <==> compare::order(b, a) == Ordering::Less,
{
    let s = ascii::lower(a@);
    let t = ascii::lower(b@);
    if compare::order(a, b) == Ordering::Less {
        lemma_reason(s, t);
    }
    super::laws::law_order_is_antisymmetric(b, a);
    super::laws::law_order_agrees_with_equality(a, b);
    if a@.len() == b@.len() && forall|i: int| 0 <= i < a@.len() ==> #[trigger] s[i] == t[i] {
        assert(s =~= t);
    }
}

proof fn lemma_reason(a: Seq<u8>, b: Seq<u8>)
    requires
        compare::byte_order(a, b) == Ordering::Less,
    ensures
        (a.len() < b.len() && (forall|i: int| 0 <= i < a.len() ==> #[trigger] a[i] == b[i])) || (
        exists|k: int|
            0 <= k < a.len() && k < b.len() && #[trigger] a[k] < b[k] && (forall|i: int|
                0 <= i < k ==> #[trigger] a[i] == b[i])),
    decreases a.len(),
{
    if a.len() > 0 && a[0] == b[0] {
        let s = a.drop_first();
        let t = b.drop_first();
        lemma_reason(s, t);
        if s.len() < t.len() && forall|i: int| 0 <= i < s.len() ==> #[trigger] s[i] == t[i] {
            assert forall|i: int| 0 <= i < a.len() implies #[trigger] a[i] == b[i] by {
                assert(i > 0 ==> s[i - 1] == t[i - 1]);
            }
        } else {
            let k = choose|k: int|
                0 <= k < s.len() && k < t.len() && #[trigger] s[k] < t[k] && forall|i: int|
                    0 <= i < k ==> #[trigger] s[i] == t[i];
            assert(a[k + 1] < b[k + 1]);
            assert forall|i: int| 0 <= i < k + 1 implies #[trigger] a[i] == b[i] by {
                assert(i > 0 ==> s[i - 1] == t[i - 1]);
            }
        }
    }
}

/// A hasher is fed the length and then each byte, in order, with 32 added to those from 65 to 90.
pub proof fn law_hash_by_number(h: Hrp)
    requires
        h@.len() <= usize::MAX,
    ensures
        compare::hash_items(h@).len() == h@.len() + 1,
        compare::hash_items(h@)[0] matches HashItem::Len(n) && n == h@.len(),
        forall|i: int|
            0 <= i < h@.len() && 65 <= h@[i] <= 90 ==> (#[trigger] compare::hash_items(h@)[i
                + 1] matches HashItem::Byte(b) && b == h@[i] + 32),
        forall|i: int|
            0 <= i < h@.len() && !(65 <= h@[i] <= 90) ==> (#[trigger] compare::hash_items(h@)[i
                + 1] matches HashItem::Byte(b) && b == h@[i]),
{
}

/// Human-readable parts that are not equal feed different values to a hasher.
pub proof fn law_unequal_parts_feed_unlike(a: Hrp, b: Hrp)
    requires
        compare::hash_items(a@) == compare::hash_items(b@),
    ensures
        compare::equal(a, b),
{
    let s = compare::hash_items(a@);
    let t = compare::hash_items(b@);
    let x = ascii::lower(a@);
    let y = ascii::lower(b@);
    assert(s.len() == x.len() + 1);
    assert(t.len() == y.len() + 1);
    assert forall|i: int| 0 <= i < x.len() implies #[trigger] x[i] == y[i] by {
        assert(s[i + 1] == HashItem::Byte(x[i]));
        assert(t[i + 1] == HashItem::Byte(y[i]));
    }
    assert(x =~= y);
}

/// Feeding nothing to a hasher leaves it as it is, and feeding one value more is feeding the others
/// and then that one.
pub proof fn law_fed_in_order<H: core::hash::Hasher>(
    before: H,
    items: Seq<HashItem>,
    item: HashItem,
    after: H,
)
    ensures
        std_items::fed_all(before, Seq::<HashItem>::empty(), after) <==> before == after,
        std_items::fed_all(before, items.push(item), after) <==> exists|mid: H|
            std_items::fed_all(before, items, mid) && #[trigger] std_items::fed_one(
                mid,
                item,
                after,
            ),
{
    let longer = items.push(item);
    assert(longer.drop_last() =~= items);
    assert(longer.last() == item);
    assert(std_items::fed_all(before, longer, after) <==> exists|mid: H|
        std_items::fed_all(before, longer.drop_last(), mid) && #[trigger] std_items::fed_one(
            mid,
            longer.last(),
            after,
        ));
}

/// The human-readable parts of the networks are those of two or four bytes that read "bc", "tb" and
/// "bcrt" in either case of each letter.
pub proof fn law_networks_by_number(h: Hrp)
    ensures
        ascii::lower(h@) == super::bc() <==> {
            &&& h@.len() == 2
            &&& h@[0] == 66 || h@[0] == 98
            &&& h@[1] == 67 || h@[1] == 99
        },
        ascii::lower(h@) == super::tb() <==> {
            &&& h@.len() == 2
            &&& h@[0] == 84 || h@[0] == 116
            &&& h@[1] == 66 || h@[1] == 98
        },
        ascii::lower(h@) == super::bcrt() <==> {
            &&& h@.len() == 4
            &&& h@[0] == 66 || h@[0] == 98
            &&& h@[1] == 67 || h@[1] == 99
            &&& h@[2] == 82 || h@[2] == 114
            &&& h@[3] == 84 || h@[3] == 116
        },
{
    let l = ascii::lower(h@);
    assert(l.len() == 2 && l[0] == 98 && l[1] == 99 ==> l =~= super::bc());
    assert(l.len() == 2 && l[0] == 116 && l[1] == 98 ==> l =~= super::tb());
    assert(l.len() == 4 && l[0] == 98 && l[1] == 99 && l[2] == 114 && l[3] == 116 ==> l
        =~= super::bcrt());
}

/// The numeral of a number below the base is one digit, `0` to `9` and then `a` to `f`; that of a
/// larger one is the numeral of its quotient by the base and the digit of its remainder.
pub proof fn law_numeral_by_number(n: nat, d: nat, base: nat)
    requires
        base == 10 || base == 16,
        d < base,
    ensures
        numeral::numeral(d, base).len() == 1,
        d < 10 ==> numeral::numeral(d, base)[0] as int == 48 + d,
        d >= 10 ==> numeral::numeral(d, base)[0] as int == 87 + d,
        n > 0 ==> numeral::numeral(n * base + d, base) == numeral::numeral(n, base).push(
            numeral::numeral(d, base)[0],
        ),
{
    if n > 0 {
        let m = n * base + d;
        if base == 10 {
            assert(m == n * 10 + d);
            assert(m / 10 == n && m % 10 == d);
        } else {
            assert(m == n * 16 + d);
            assert(m / 16 == n && m % 16 == d);
        }
    }
}

/// Different numbers have different numerals.
pub proof fn law_numerals_differ(a: nat, b: nat, base: nat)
    requires
        base == 10 || base == 16,
        numeral::numeral(a, base) == numeral::numeral(b, base),
    ensures
        a == b,
    decreases a,
{
    let s = numeral::numeral(a, base);
    let t = numeral::numeral(b, base);
    lemma_numeral_end(a, base);
    lemma_numeral_end(b, base);
    lemma_digits_differ(a % base, b % base);
    if a >= base && b >= base {
        assert(s.drop_last() =~= numeral::numeral(a / base, base));
        assert(t.drop_last() =~= numeral::numeral(b / base, base));
        if base == 10 {
            law_numerals_differ(a / 10, b / 10, 10);
        } else {
            law_numerals_differ(a / 16, b / 16, 16);
        }
    }
}

proof fn lemma_digits_differ(a: nat, b: nat)
    requires
        a < 16,
        b < 16,
        numeral::digit(a) == numeral::digit(b),
    ensures
        a == b,
{
}

proof fn lemma_numeral_end(n: nat, base: nat)
    requires
        base == 10 || base == 16,
    ensures
        n % base < 16,
        numeral::numeral(n, base).len() > 0,
        numeral::numeral(n, base).last() == numeral::digit(n % base),
        n < base ==> numeral::numeral(n, base).len() == 1 && n % base == n,
        n >= base ==> numeral::numeral(n, base).len() > 1,
    decreases n,
{
    if base == 10 {
        assert(n < 10 ==> n % 10 == n);
        if n >= 10 {
            lemma_numeral_end(n / 10, 10);
        }
    } else {
        assert(n < 16 ==> n % 16 == n);
        if n >= 16 {
            lemma_numeral_end(n / 16, 16);
        }
    }
}

/// Errors say what is wrong in these words, with lengths in decimal, the character as it is and the
/// byte in hexadecimal.
pub proof fn law_error_texts(max_len: nat, n: usize, c: char, b: u8)
    ensures
        error::error_text(Error::Empty, max_len) == "hrp is empty, must have at least 1 character"@,
        error::error_text(Error::MixedCase, max_len) == "hrp cannot mix upper and lower case"@,
        error::error_text(Error::NonAsciiChar(c), max_len) == "found non-ASCII character: "@
            + seq![c],
        error::error_text(Error::InvalidAsciiByte(b), max_len)
            == "byte value is not valid US-ASCII: '"@ + numeral::numeral(b as nat, 16) + "'"@,
        error::error_text(Error::TooLong(n), max_len) == "hrp is too long, found "@
            + numeral::numeral(n as nat, 10) + " characters, must be <= "@ + numeral::numeral(
            max_len,
            10,
        ),
{
    assert(error::error_text(Error::NonAsciiChar(c), max_len) =~= "found non-ASCII character: "@
        + seq![c]);
}

/// Different errors read differently.
pub proof fn law_error_texts_differ(a: Error, b: Error, max_len: nat)
    requires
        error::error_text(a, max_len) == error::error_text(b, max_len),
    ensures
        a == b,
{
    reveal_strlit("hrp is too long, found ");
    reveal_strlit("byte value is not valid US-ASCII: '");
    lemma_error_text_starts(a, max_len);
    lemma_error_text_starts(b, max_len);
    let s = error::error_text(a, max_len);
    let t = error::error_text(b, max_len);
    match (a, b) {
        (Error::TooLong(m), Error::TooLong(n)) => {
            let x = numeral::numeral(m as nat, 10);
            let y = numeral::numeral(n as nat, 10);
            let rest = " characters, must be <= "@ + numeral::numeral(max_len, 10);
            assert(s =~= "hrp is too long, found "@ + x + rest);
            assert(t =~= "hrp is too long, found "@ + y + rest);
            assert(s.len() == 23 + x.len() + rest.len());
            assert(t.len() == 23 + y.len() + rest.len());
            assert(x =~= s.subrange(23, 23 + x.len() as int));
            assert(y =~= t.subrange(23, 23 + y.len() as int));
            law_numerals_differ(m as nat, n as nat, 10);
        },
        (Error::InvalidAsciiByte(m), Error::InvalidAsciiByte(n)) => {
            let x = numeral::numeral(m as nat, 16);
            let y = numeral::numeral(n as nat, 16);
            assert(s == "byte value is not valid US-ASCII: '"@ + x + "'"@);
            assert(t == "byte value is not valid US-ASCII: '"@ + y + "'"@);
            assert(s.len() == 35 + x.len() + "'"@.len());
            assert(t.len() == 35 + y.len() + "'"@.len());
            assert(x =~= s.subrange(35, 35 + x.len() as int));
            assert(y =~= t.subrange(35, 35 + y.len() as int));
            law_numerals_differ(m as nat, n as nat, 16);
        },
        (Error::NonAsciiChar(c), Error::NonAsciiChar(d)) => {
            assert(s.last() == c && t.last() == d);
        },
        _ => {},
    }
}

/// The kind of an error shows in three characters of its text.
proof fn lemma_error_text_starts(e: Error, max_len: nat)
    ensures
        e is TooLong <==> error::error_text(e, max_len)[0] == 'h' && error::error_text(
            e,
            max_len,
        )[7] == 't',
        e is Empty <==> error::error_text(e, max_len)[0] == 'h' && error::error_text(
            e,
            max_len,
        )[7] == 'e',
        e is MixedCase <==> error::error_text(e, max_len)[0] == 'h' && error::error_text(
            e,
            max_len,
        )[4] == 'c',
        e is NonAsciiChar <==> error::error_text(e, max_len)[0] == 'f',
        e is InvalidAsciiByte <==> error::error_text(e, max_len)[0] == 'b',
{
    reveal_strlit("hrp is too long, found ");
    reveal_strlit("hrp is empty, must have at least 1 character");
    reveal_strlit("found non-ASCII character: ");
    reveal_strlit("byte value is not valid US-ASCII: '");
    reveal_strlit("hrp cannot mix upper and lower case");
}

/// `Debug` puts the code 34 around the text, and the code 92 in front of each 34 and each 92 in it;
/// every other character stands for itself.
pub proof fn law_quoted_by_number(s: Seq<char>, c: char)
    ensures
        std_items::quoted(Seq::<char>::empty()) == seq![34 as char, 34 as char],
        std_items::quoted(s).len() >= s.len() + 2,
        c as int == 34 || c as int == 92 ==> std_items::quoted(s.push(c)) == std_items::quoted(
            s,
        ).drop_last() + seq![92 as char, c, 34 as char],
        c as int != 34 && c as int != 92 ==> std_items::quoted(s.push(c)) == std_items::quoted(
            s,
        ).drop_last() + seq![c, 34 as char],
{
    lemma_escaped_length(s);
    assert(s.push(c).drop_last() =~= s);
    assert(std_items::quoted(Seq::<char>::empty()) =~= seq![34 as char, 34 as char]);
    if c as int == 34 || c as int == 92 {
        assert(std_items::quoted(s.push(c)) =~= std_items::quoted(s).drop_last()
            + seq![92 as char, c, 34 as char]);
    } else {
        assert(std_items::quoted(s.push(c)) =~= std_items::quoted(s).drop_last()
            + seq![c, 34 as char]);
    }
}

proof fn lemma_escaped_length(s: Seq<char>)
    ensures
        std_items::escaped(s).len() >= s.len(),
    decreases s.len(),
{
    if s.len() > 0 {
        lemma_escaped_length(s.drop_last());
    }
}

/// A text that was cut short was begun behind what was there, and its last character is missing.
pub proof fn law_cut_short(before: Seq<char>, after: Seq<char>, text: Seq<char>)
    ensures
        std_items::cut_short(before, after, text) <==> {
            &&& before.len() <= after.len() < before.len() + text.len()
            &&& forall|i: int| 0 <= i < after.len() ==> #[trigger] after[i] == (before + text)[i]
        },
{
    if before.len() <= after.len() < before.len() + text.len() && (forall|i: int|
        0 <= i < after.len() ==> #[trigger] after[i] == (before + text)[i]) {
        assert(after =~= before + text.take(after.len() - before.len()));
    }
}

} // verus!
