//! The parts of std that this module calls and that are believed to do what is written here.

use core::fmt::Write;

use vstd::prelude::*;

use super::ascii;
use super::ByteFormatter;

verus! {

/// The error of `core::str::from_utf8`, which is carried and never looked into.
#[verifier::external_type_specification]
#[verifier::external_body]
pub struct ExUtf8Error(core::str::Utf8Error);

/// `core::str::from_utf8` returns a string where the bytes are valid UTF-8, and only there; the
/// string is the text that the bytes encode.
pub assume_specification[ core::str::from_utf8 ](v: &[u8]) -> (r: Result<
    &str,
    core::str::Utf8Error,
>)
    ensures
        r is Ok <==> vstd::utf8::valid_utf8(v@),
        r matches Ok(s) ==> s@ == vstd::utf8::decode_utf8(v@),
;

/// The error of formatting, which holds nothing.
#[verifier::external_type_specification]
#[verifier::external_body]
pub struct ExFmtError(core::fmt::Error);

/// `String::push` appends the character to the end of the string.
pub assume_specification[ String::push ](s: &mut String, ch: char)
    ensures
        final(s)@ == old(s)@.push(ch),
;

/// `core::fmt::write` formats a value into the formatter, with no options: it writes the pieces of
/// the formatted form, in order, with `ByteFormatter`'s own `write_str`. Where it succeeds, the text
/// that was written is one that `to_string` gives of the value, since both are the value's `Display`
/// form. Nothing is claimed of the text that was written before an error.
#[verifier::external_body]
pub(crate) fn format_into<T: core::fmt::Display>(f: &mut ByteFormatter, data: &T) -> (r: Result<
    (),
    core::fmt::Error,
>)
    ensures
        final(f).limit() == old(f).limit(),
        r is Ok ==> exists|s: String| #[trigger]
            vstd::string::to_string_from_display_ensures::<T>(data, s) && final(f)@ == old(f)@ + s@,
{
    write!(f, "{}", data)
}

/// Whether formatting the value into a formatter to which nothing was written yet and which accepts
/// up to `max_len` bytes can end with `r`.
pub closed spec fn can_format<T: core::fmt::Display>(
    data: &T,
    max_len: nat,
    r: Result<(), core::fmt::Error>,
) -> bool {
    exists|f: &mut ByteFormatter| #[trigger]
        call_ensures(format_into::<T>, (f, data), r) && f@ == Seq::<char>::empty() && f.limit()
            == max_len
}

/// A value can be formatted with a result that the call of [`format_into`] on a fresh formatter can
/// have, and with no other.
pub(crate) proof fn law_can_format<T: core::fmt::Display>(
    data: &T,
    max_len: nat,
    r: Result<(), core::fmt::Error>,
)
    ensures
        can_format(data, max_len, r) <==> exists|f: &mut ByteFormatter| #[trigger]
            call_ensures(format_into::<T>, (f, data), r) && f@.len() == 0 && f.limit() == max_len,
{
    assert forall|f: &mut ByteFormatter| f@.len() == 0 implies #[trigger] f@ == Seq::<
        char,
    >::empty() by {}
}

/// What formatting writes to, a destination with the options of one argument.
#[verifier::external_type_specification]
#[verifier::external_body]
pub struct ExFormatter<'a>(core::fmt::Formatter<'a>);

/// The text of the writes through a formatter that succeeded.
pub uninterp spec fn written(f: core::fmt::Formatter<'_>) -> Seq<char>;

/// The number of writes through a formatter that failed.
pub uninterp spec fn refused(f: core::fmt::Formatter<'_>) -> nat;

/// Whether `after` is `before` and a part of `text`, its beginning but not all of it.
pub open spec fn cut_short(before: Seq<char>, after: Seq<char>, text: Seq<char>) -> bool {
    exists|k: int| 0 <= k < text.len() && after == before + #[trigger] text.take(k)
}

/// A text with a backslash in front of each double quote and each backslash.
pub open spec fn escaped(s: Seq<char>) -> Seq<char>
    decreases s.len(),
{
    if s.len() == 0 {
        Seq::empty()
    } else if s.last() == '"' || s.last() == '\\' {
        escaped(s.drop_last()).push('\\').push(s.last())
    } else {
        escaped(s.drop_last()).push(s.last())
    }
}

/// A text of printable ASCII characters as `Debug` shows it: escaped and between double quotes.
pub open spec fn quoted(s: Seq<char>) -> Seq<char> {
    seq!['"'] + escaped(s) + seq!['"']
}

/// `core::fmt::Formatter::write_str` writes the string as it is, without regard to the options of
/// the formatter, or fails. Nothing is claimed of whether the destination takes the string.
#[verifier::external_body]
pub(crate) fn write_str(f: &mut core::fmt::Formatter<'_>, s: &str) -> (r: Result<
    (),
    core::fmt::Error,
>)
    ensures
        r is Ok ==> written(*final(f)) == written(*old(f)) + s@,
        r is Ok ==> refused(*final(f)) == refused(*old(f)),
        r is Err ==> written(*final(f)) == written(*old(f)),
        r is Err ==> refused(*final(f)) == refused(*old(f)) + 1,
{
    f.write_str(s)
}

/// `<core::fmt::Formatter as core::fmt::Write>::write_char` writes the character as it is, without
/// regard to the options of the formatter, or fails. Nothing is claimed of whether the destination
/// takes the character.
#[verifier::external_body]
pub(crate) fn write_char(f: &mut core::fmt::Formatter<'_>, c: char) -> (r: Result<
    (),
    core::fmt::Error,
>)
    ensures
        r is Ok ==> written(*final(f)) == written(*old(f)).push(c),
        r is Ok ==> refused(*final(f)) == refused(*old(f)),
        r is Err ==> written(*final(f)) == written(*old(f)),
        r is Err ==> refused(*final(f)) == refused(*old(f)) + 1,
{
    f.write_char(c)
}

/// `<str as core::fmt::Debug>::fmt` writes the string between double quotes, without regard to the
/// options of the formatter. Of printable ASCII it escapes the double quote and the backslash, with
/// a backslash. It stops at the first write that fails, and fails itself only then. Nothing is
/// claimed of whether the destination takes what is written, nor of other strings.
#[verifier::external_body]
pub(crate) fn write_quoted(f: &mut core::fmt::Formatter<'_>, s: &str) -> (r: Result<
    (),
    core::fmt::Error,
>)
    requires
        forall|i: int| 0 <= i < s@.len() ==> #[trigger] ascii::printable_char(s@[i]),
    ensures
        r is Ok ==> written(*final(f)) == written(*old(f)) + quoted(s@),
        r is Ok ==> refused(*final(f)) == refused(*old(f)),
        r is Err ==> cut_short(written(*old(f)), written(*final(f)), quoted(s@)),
        r is Err ==> refused(*final(f)) == refused(*old(f)) + 1,
{
    core::fmt::Debug::fmt(s, f)
}

/// One value that is fed to a hasher.
pub enum HashItem {
    /// A number, as a `usize` is hashed.
    Len(usize),
    /// A byte, as a `u8` is hashed.
    Byte(u8),
}

/// The hasher that `<usize as core::hash::Hash>::hash` makes of a hasher when it feeds it a number.
/// Nothing is claimed of what the hasher makes of it.
#[allow(dead_code)]
#[verifier::external_body]
pub(crate) fn with_usize<H: core::hash::Hasher>(h: H, n: usize) -> H {
    let mut h = h;
    core::hash::Hash::hash(&n, &mut h);
    h
}

/// The hasher that `<u8 as core::hash::Hash>::hash` makes of a hasher when it feeds it a byte.
/// Nothing is claimed of what the hasher makes of it.
#[allow(dead_code)]
#[verifier::external_body]
pub(crate) fn with_u8<H: core::hash::Hasher>(h: H, b: u8) -> H {
    let mut h = h;
    core::hash::Hash::hash(&b, &mut h);
    h
}

/// Whether feeding one value to the hasher `before` can make `after` of it.
pub closed spec fn fed_one<H: core::hash::Hasher>(before: H, item: HashItem, after: H) -> bool {
    match item {
        HashItem::Len(n) => call_ensures(with_usize::<H>, (before, n), after),
        HashItem::Byte(b) => call_ensures(with_u8::<H>, (before, b), after),
    }
}

/// Feeding a number or a byte is what hashing that number or byte does to the hasher.
pub(crate) proof fn law_fed_one<H: core::hash::Hasher>(before: H, n: usize, b: u8, after: H)
    ensures
        fed_one(before, HashItem::Len(n), after) <==> call_ensures(
            with_usize::<H>,
            (before, n),
            after,
        ),
        fed_one(before, HashItem::Byte(b), after) <==> call_ensures(
            with_u8::<H>,
            (before, b),
            after,
        ),
{
}

/// Whether feeding values to the hasher `before`, one behind the other and nothing else, can make
/// `after` of it.
pub open spec fn fed_all<H: core::hash::Hasher>(
    before: H,
    items: Seq<HashItem>,
    after: H,
) -> bool
    decreases items.len(),
{
    if items.len() == 0 {
        before == after
    } else {
        exists|mid: H|
            fed_all(before, items.drop_last(), mid) && #[trigger] fed_one(mid, items.last(), after)
    }
}

/// `<usize as core::hash::Hash>::hash` feeds the number, and nothing else, to the hasher. What the
/// hasher becomes is what [`with_usize`], the same call, can make of it.
#[verifier::external_body]
pub(crate) fn hash_usize<H: core::hash::Hasher>(h: &mut H, n: usize)
    ensures
        fed_one(*old(h), HashItem::Len(n), *final(h)),
{
    core::hash::Hash::hash(&n, h)
}

/// `<u8 as core::hash::Hash>::hash` feeds the byte, and nothing else, to the hasher. What the hasher
/// becomes is what [`with_u8`], the same call, can make of it.
#[verifier::external_body]
pub(crate) fn hash_u8<H: core::hash::Hasher>(h: &mut H, b: u8)
    ensures
        fed_one(*old(h), HashItem::Byte(b), *final(h)),
{
    core::hash::Hash::hash(&b, h)
}

} // verus!
