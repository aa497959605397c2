//! Provides an [`Hrp`] type that represents the human-readable part of a bech32 encoded string.
//!
//! > The human-readable part, which is intended to convey the type of data, or anything else that
//! > is relevant to the reader. This part MUST contain 1 to 83 US-ASCII characters, with each
//! > character having a value in the range [33-126]. HRP validity may be further restricted by
//! > specific applications.
//!
//! ref: [BIP-173](https://github.com/bitcoin/bips/blob/master/bip-0173.mediawiki#user-content-Bech32)

pub mod ascii;
pub mod compare;
pub mod display;
pub mod error;
mod formatter;
mod iter;
pub mod laws;
mod lemmas;
pub mod meaning;
pub mod numeral;
mod repr;
pub mod std_items;
pub mod validity;

use vstd::prelude::*;
use vstd::utf8;

pub use error::Error;
pub use formatter::ByteFormatter;
pub use iter::{ByteIter, CharIter, LowercaseByteIter, LowercaseCharIter};
pub use repr::INLINE_LEN;
pub use std_items::HashItem;

use repr::Repr;

verus! {

/// Maximum length of the human-readable part.
pub const MAX_LEN: usize = 83;

/// Bytes that fill an `Hrp` up to 8 bytes where a pointer is narrower than that.
const PAD_LEN: usize = 8 - (usize::BITS / 8) as usize;

/// The letter `X`, which takes the place of bytes that are not printable ASCII.
pub const PLACEHOLDER: u8 = 88;

/// The human-readable part (human readable prefix before the '1' separator).
///
/// Occupies 8 bytes: a pointer to the storage, filled up where pointers are narrower. The storage is
/// a heap block. It holds up to [`INLINE_LEN`] bytes in place, that is within the block itself, and
/// longer ones in a second heap block of their own.
///
/// The view of an `Hrp` is its bytes, in the case in which they were parsed.
pub struct Hrp {
    repr: Box<Repr>,
    _pad: [u8; PAD_LEN],
}

impl View for Hrp {
    type V = Seq<u8>;

    closed spec fn view(&self) -> Seq<u8> {
        (*self.repr)@
    }
}

/// Bytes that an `Hrp` can hold: at most [`MAX_LEN`], each of them printable ASCII.
pub open spec fn storable(bytes: Seq<u8>) -> bool {
    &&& bytes.len() <= MAX_LEN
    &&& forall|i: int| 0 <= i < bytes.len() ==> #[trigger] ascii::printable(bytes[i])
}

/// The bytes that take the place of arbitrary ones: what is not printable ASCII becomes `X`.
pub open spec fn sanitized(bytes: Seq<u8>) -> Seq<u8> {
    bytes.map_values(|b: u8| if ascii::printable(b) { b } else { PLACEHOLDER })
}

/// Replaces what is not printable ASCII by `X`.
fn sanitize(bytes: &mut [u8])
    ensures
        final(bytes)@ == sanitized(old(bytes)@),
{
    let ghost before = bytes@;
    let n: usize = bytes.len();
    let mut i: usize = 0;
    while i < n
        invariant
            i <= n,
            n == bytes@.len(),
            before.len() == n,
            forall|j: int| 0 <= j < i ==> bytes@[j] == sanitized(before)[j],
            forall|j: int| i <= j < n ==> bytes@[j] == before[j],
        decreases n - i,
    {
        if bytes[i] < 33 || bytes[i] > 126 {
            bytes[i] = PLACEHOLDER;
        }
        i = i + 1;
    }
    assert(bytes@ =~= sanitized(before));
}

/// The bytes of "bc".
pub open spec fn bc() -> Seq<u8> {
    seq![98u8, 99]
}

/// The bytes of "tb".
pub open spec fn tb() -> Seq<u8> {
    seq![116u8, 98]
}

/// The bytes of "bcrt".
pub open spec fn bcrt() -> Seq<u8> {
    seq![98u8, 99, 114, 116]
}

/// The human-readable part used by the Bitcoin mainnet network.
#[allow(non_snake_case)]
pub fn BC() -> (r: Hrp)
    ensures
        r@ == bc(),
{
    proof {
        reveal_strlit("bc");
        lemmas::lemma_printable_bytes("bc"@);
    }
    let r: Hrp = Hrp::parse_unchecked_inline("bc");
    assert(r@ =~= bc());
    r
}

/// The human-readable part used by the Bitcoin testnet networks (testnet, signet).
#[allow(non_snake_case)]
pub fn TB() -> (r: Hrp)
    ensures
        r@ == tb(),
{
    proof {
        reveal_strlit("tb");
        lemmas::lemma_printable_bytes("tb"@);
    }
    let r: Hrp = Hrp::parse_unchecked_inline("tb");
    assert(r@ =~= tb());
    r
}

/// The human-readable part used when running a Bitcoin regtest network.
#[allow(non_snake_case)]
pub fn BCRT() -> (r: Hrp)
    ensures
        r@ == bcrt(),
{
    proof {
        reveal_strlit("bcrt");
        lemmas::lemma_printable_bytes("bcrt"@);
    }
    let r: Hrp = Hrp::parse_unchecked_inline("bcrt");
    assert(r@ =~= bcrt());
    r
}

impl Hrp {
    /// What is stored is storable, and stored in place where it fits there.
    #[verifier::type_invariant]
    spec fn inv(self) -> bool {
        &&& self.repr.wf()
        &&& self.repr.inline() <==> self@.len() <= INLINE_LEN
        &&& storable(self@)
    }

    /// Parses the human-readable part checking it is valid as defined by [BIP-173].
    ///
    /// This does _not_ check that the `hrp` is an in-use HRP within Bitcoin (eg, "bc"), rather it
    /// checks that the HRP string is valid as per the specification in [BIP-173]:
    ///
    /// > The human-readable part, which is intended to convey the type of data, or anything else that
    /// > is relevant to the reader. This part MUST contain 1 to 83 US-ASCII characters, with each
    /// > character having a value in the range [33-126]. HRP validity may be further restricted by
    /// > specific applications.
    ///
    /// [BIP-173]: <https://github.com/bitcoin/bips/blob/master/bip-0173.mediawiki>
    pub fn parse(hrp: &str) -> (r: Result<Self, Error>)
        ensures
            r is Ok <==> validity::valid_text(hrp@, MAX_LEN as nat),
            match r {
                Ok(h) => validity::checked(hrp@, MAX_LEN as nat) == Ok::<Seq<u8>, Error>(h@),
                Err(e) => validity::checked(hrp@, MAX_LEN as nat) == Err::<Seq<u8>, Error>(e),
            },
    {
        Self::parse_within(hrp, MAX_LEN)
    }

    /// Parses the human-readable part as [`Hrp::parse`] does, with a limit of its own: one that is
    /// longer than `max_len` fails with [`Error::TooLong`].
    ///
    /// With a limit of [`INLINE_LEN`] the bytes are always stored in place, within the one heap block
    /// that an `Hrp` has in any case.
    pub fn parse_within(hrp: &str, max_len: usize) -> (r: Result<Self, Error>)
        requires
            max_len <= MAX_LEN,
        ensures
            r is Ok <==> validity::valid_text(hrp@, max_len as nat),
            match r {
                Ok(h) => validity::checked(hrp@, max_len as nat) == Ok::<Seq<u8>, Error>(h@),
                Err(e) => validity::checked(hrp@, max_len as nat) == Err::<Seq<u8>, Error>(e),
            },
    {
        proof {
            lemmas::lemma_checked_valid(hrp@, max_len as nat);
        }
        let bytes: &[u8] = hrp.as_bytes();
        if hrp.is_empty() {
            return Err(Error::Empty);
        }
        if bytes.len() > max_len {
            return Err(Error::TooLong(bytes.len()));
        }
        assert(Seq::<char>::empty() + hrp@ =~= hrp@);
        let (fault, _, _) = validity::scan(Ghost(Seq::empty()), hrp, false, false);
        match fault {
            Some(e) => Err(e),
            None => Ok(Self::new(bytes)),
        }
    }

    /// Parses the human-readable part from an object which can be formatted.
    ///
    /// The formatted form of the object is subject to all the same rules as [`Hrp::parse`].
    /// This method is semantically equivalent to `Hrp::parse(&data.to_string())` but avoids
    /// allocating an intermediate string.
    ///
    /// The object must have a formatted form, as `to_string` asks for too: a caller that is not
    /// verified against this contract panics where the `Display` implementation of the object
    /// returns an error. See [`Hrp::try_parse_display_within`] for objects of which this is not known.
    pub fn parse_display<T: core::fmt::Display>(data: T) -> (r: Result<Self, Error>)
        requires
            exists|s: String| vstd::string::to_string_from_display_ensures::<T>(&data, s),
        ensures
            exists|s: String| #[trigger]
                vstd::string::to_string_from_display_ensures::<T>(&data, s) && {
                    &&& r is Ok <==> validity::valid_text(s@, MAX_LEN as nat)
                    &&& match r {
                        Ok(h) => validity::checked(s@, MAX_LEN as nat) == Ok::<Seq<u8>, Error>(h@),
                        Err(e) => validity::checked(s@, MAX_LEN as nat) == Err::<Seq<u8>, Error>(e),
                    }
                },
    {
        Self::parse_display_within(data, MAX_LEN)
    }

    /// Parses the human-readable part from an object which can be formatted, with a limit of its
    /// own as in [`Hrp::parse_within`].
    pub fn parse_display_within<T: core::fmt::Display>(data: T, max_len: usize) -> (r: Result<
        Self,
        Error,
    >)
        requires
            max_len <= MAX_LEN,
            exists|s: String| vstd::string::to_string_from_display_ensures::<T>(&data, s),
        ensures
            exists|s: String| #[trigger]
                vstd::string::to_string_from_display_ensures::<T>(&data, s) && {
                    &&& r is Ok <==> validity::valid_text(s@, max_len as nat)
                    &&& match r {
                        Ok(h) => validity::checked(s@, max_len as nat) == Ok::<Seq<u8>, Error>(h@),
                        Err(e) => validity::checked(s@, max_len as nat) == Err::<Seq<u8>, Error>(e),
                    }
                },
    {
        match Self::try_parse_display_within(&data, max_len) {
            Some(r) => r,
            None => {
                // The object cannot be formatted: `to_string` panics on it.
                let formatted: String = data.to_string();
                assert(vstd::string::to_string_from_display_ensures::<T>(&data, formatted));
                Self::parse_within(formatted.as_str(), max_len)
            },
        }
    }

    /// Parses the human-readable part from an object, as [`Hrp::parse_display_within`] does, or
    /// returns `None` where the `Display` implementation of the object returns an error, and only
    /// there.
    pub fn try_parse_display_within<T: core::fmt::Display>(data: &T, max_len: usize) -> (r: Option<
        Result<Self, Error>,
    >)
        requires
            max_len <= MAX_LEN,
        ensures
            exists|result: Result<(), core::fmt::Error>| #[trigger]
                std_items::can_format(data, max_len as nat, result) && (r is Some <==> result is Ok),
            r matches Some(r) ==> exists|s: String| #[trigger]
                vstd::string::to_string_from_display_ensures::<T>(data, s) && {
                    &&& r is Ok <==> validity::valid_text(s@, max_len as nat)
                    &&& match r {
                        Ok(h) => validity::checked(s@, max_len as nat) == Ok::<Seq<u8>, Error>(h@),
                        Err(e) => validity::checked(s@, max_len as nat) == Err::<Seq<u8>, Error>(e),
                    }
                },
    {
        let mut formatter: ByteFormatter = ByteFormatter::new(max_len);
        let format = std_items::format_into::<T>;
        let result: Result<(), core::fmt::Error> = format(&mut formatter, data);
        proof {
            assert(exists|f: &mut ByteFormatter| #[trigger]
                call_ensures(std_items::format_into::<T>, (f, data), result) && f@.len() == 0
                    && f.limit() == max_len);
            std_items::law_can_format(data, max_len as nat, result);
            assert(std_items::can_format(data, max_len as nat, result));
        }
        match result {
            Ok(_) => {
                proof {
                    let s = choose|s: String| #[trigger]
                        vstd::string::to_string_from_display_ensures::<T>(data, s) && formatter@
                            == Seq::<char>::empty() + s@;
                    assert(formatter@ =~= s@);
                }
                Some(formatter.finish())
            },
            Err(_) => None,
        }
    }

    /// Parses the human-readable part (see [`Hrp::parse`] for full docs).
    ///
    /// Does not check that `hrp` is valid according to BIP-173 but does check for valid ASCII
    /// values, replacing any invalid characters with `X`, one for each of their bytes.
    ///
    /// `hrp` must not be longer than [`MAX_LEN`] bytes: a caller that is not verified against this
    /// contract panics on a longer one.
    pub fn parse_unchecked(hrp: &str) -> (r: Self)
        requires
            utf8::encode_utf8(hrp@).len() <= MAX_LEN,
        ensures
            r@ == sanitized(utf8::encode_utf8(hrp@)),
            r@.len() == utf8::encode_utf8(hrp@).len(),
            forall|i: int|
                0 <= i < r@.len() && 33 <= utf8::encode_utf8(hrp@)[i] <= 126 ==> #[trigger] r@[i]
                    == utf8::encode_utf8(hrp@)[i],
            forall|i: int|
                0 <= i < r@.len() && !(33 <= utf8::encode_utf8(hrp@)[i] <= 126) ==> #[trigger] r@[i]
                    == 88,
    {
        let bytes: &[u8] = hrp.as_bytes();
        let mut repr: Repr = Self::store(bytes);
        sanitize(Self::as_bytes_mut(&mut repr));
        Self::wrap(repr)
    }

    /// Parses a human-readable part that is short enough to be stored in place, within the one heap
    /// block that an `Hrp` has in any case (see [`Hrp::parse`] for full docs).
    ///
    /// Does not check that `hrp` is valid according to BIP-173 but does check for valid ASCII
    /// values, replacing any invalid characters with `X`, one for each of their bytes.
    ///
    /// `hrp` must not be longer than [`INLINE_LEN`] bytes: a caller that is not verified against
    /// this contract panics on a longer one.
    pub fn parse_unchecked_inline(hrp: &str) -> (r: Self)
        requires
            utf8::encode_utf8(hrp@).len() <= INLINE_LEN,
        ensures
            r@ == sanitized(utf8::encode_utf8(hrp@)),
            r@.len() == utf8::encode_utf8(hrp@).len(),
            forall|i: int|
                0 <= i < r@.len() && 33 <= utf8::encode_utf8(hrp@)[i] <= 126 ==> #[trigger] r@[i]
                    == utf8::encode_utf8(hrp@)[i],
            forall|i: int|
                0 <= i < r@.len() && !(33 <= utf8::encode_utf8(hrp@)[i] <= 126) ==> #[trigger] r@[i]
                    == 88,
    {
        let hrp: &[u8] = hrp.as_bytes();
        let mut data: [u8; INLINE_LEN] = [0; INLINE_LEN];
        let mut i: usize = 0;
        while i < hrp.len()
            invariant
                i <= hrp@.len() <= INLINE_LEN,
                forall|j: int| 0 <= j < i ==> data@[j] == sanitized(hrp@)[j],
            decreases hrp@.len() - i,
        {
            let b: u8 = hrp[i];
            data[i] = if b < 33 || b > 126 {
                PLACEHOLDER
            } else {
                b
            };
            i = i + 1;
        }
        assert(data@.take(hrp@.len() as int) =~= sanitized(hrp@));
        Self::new_inline(data, hrp.len())
    }

    /// The human-readable part whose bytes `repr` stores.
    fn wrap(repr: Repr) -> (r: Self)
        requires
            repr.wf(),
            repr.inline() <==> repr@.len() <= INLINE_LEN,
            storable(repr@),
        ensures
            r@ == repr@,
    {
        Hrp { repr: Box::new(repr), _pad: [0; PAD_LEN] }
    }

    /// Stores `bytes` in place or in a heap block of their own, depending on their length.
    pub(crate) fn new(bytes: &[u8]) -> (r: Self)
        requires
            storable(bytes@),
        ensures
            r@ == bytes@,
    {
        Self::wrap(Self::store(bytes))
    }

    /// Storage for `bytes`, in place or in a heap block of their own.
    ///
    /// Panics where `bytes` is longer than [`MAX_LEN`], which the contract rules out.
    fn store(bytes: &[u8]) -> (r: Repr)
        requires
            bytes@.len() <= MAX_LEN,
        ensures
            r.wf(),
            r.inline() <==> bytes@.len() <= INLINE_LEN,
            r@ == bytes@,
    {
        let n: usize = bytes.len();
        // An index out of bounds stops callers that no contract holds to the limit.
        let _ = ["hrp is too long"][if n > MAX_LEN { 1 } else { 0 }];
        if n > INLINE_LEN {
            return Self::new_heap(bytes);
        }
        let mut data: [u8; INLINE_LEN] = [0; INLINE_LEN];
        let mut i: usize = 0;
        while i < n
            invariant
                i <= n <= INLINE_LEN,
                n == bytes@.len(),
                forall|j: int| 0 <= j < i ==> data@[j] == bytes@[j],
            decreases n - i,
        {
            data[i] = bytes[i];
            i = i + 1;
        }
        assert(data@.take(n as int) =~= bytes@);
        Repr::new_inline(data, n)
    }

    /// Stores the first `len` bytes of `data` in place.
    fn new_inline(data: [u8; INLINE_LEN], len: usize) -> (r: Self)
        requires
            len <= INLINE_LEN,
            storable(data@.take(len as int)),
        ensures
            r@ == data@.take(len as int),
    {
        Self::wrap(Repr::new_inline(data, len))
    }

    /// Copies `bytes` into a fresh heap block that stores the length in its first byte.
    fn new_heap(bytes: &[u8]) -> (r: Repr)
        requires
            bytes@.len() <= MAX_LEN,
        ensures
            r.wf(),
            !r.inline(),
            r@ == bytes@,
    {
        let n: usize = bytes.len();
        let mut block: Vec<u8> = Vec::with_capacity(n + 1);
        block.push(n as u8);
        let mut i: usize = 0;
        while i < n
            invariant
                i <= n <= MAX_LEN,
                n == bytes@.len(),
                block@.len() == i + 1,
                block@[0] == n,
                forall|j: int| 0 <= j < i ==> block@[j + 1] == #[trigger] bytes@[j],
            decreases n - i,
        {
            block.push(bytes[i]);
            i = i + 1;
        }
        assert(block@.skip(1) =~= bytes@);
        Repr::new_heap(block)
    }

    /// The stored bytes, mutable. What is written to them is what is stored then, where it was
    /// stored before; writing one byte changes that byte alone.
    fn as_bytes_mut(repr: &mut Repr) -> (r: &mut [u8])
        requires
            old(repr).wf(),
        ensures
            r@ == old(repr)@,
            final(r)@.len() == r@.len() ==> {
                &&& final(repr).wf()
                &&& final(repr).inline() == old(repr).inline()
                &&& final(repr)@ == final(r)@
            },
            forall|i: int, b: u8|
                0 <= i < r@.len() && final(r)@ == #[trigger] r@.update(i, b) ==> {
                    &&& final(repr).wf()
                    &&& final(repr).inline() == old(repr).inline()
                    &&& final(repr)@ == old(repr)@.update(i, b)
                    &&& final(repr)@.len() == old(repr)@.len()
                },
    {
        if repr.is_inline() {
            repr.inline_bytes_mut()
        } else {
            repr.heap_bytes_mut()
        }
    }

    /// Returns `true` if the bytes are stored in place, within the heap block that an `Hrp` points to,
    /// rather than in a second heap block of their own.
    pub fn is_inline(&self) -> (r: bool)
        ensures
            r <==> self@.len() <= INLINE_LEN,
    {
        proof {
            use_type_invariant(self);
        }
        self.repr.is_inline()
    }

    /// Returns this human-readable part as bytes.
    pub fn as_bytes(&self) -> (r: &[u8])
        ensures
            r@ == self@,
            storable(r@),
            r@.len() <= 83,
            forall|i: int| 0 <= i < r@.len() ==> 33 <= #[trigger] r@[i] <= 126,
    {
        proof {
            use_type_invariant(self);
        }
        assert forall|i: int| 0 <= i < self@.len() implies 33 <= #[trigger] self@[i] <= 126 by {
            assert(ascii::printable(self@[i]));
        }
        if self.is_inline() {
            self.repr.inline_bytes()
        } else {
            self.repr.heap_bytes()
        }
    }

    /// Returns this human-readable part as str.
    pub fn as_str(&self) -> (r: &str)
        ensures
            r@ == ascii::text(self@),
    {
        let bytes: &[u8] = self.as_bytes();
        proof {
            lemmas::lemma_printable_utf8(bytes@);
        }
        core::str::from_utf8(bytes).expect("we only store ASCII bytes")
    }

    /// Returns this human-readable part as a lowercase string.
    pub fn to_lowercase(&self) -> (r: String)
        ensures
            r@ == ascii::text(ascii::lower(self@)),
            r@.len() == self@.len(),
            forall|i: int|
                0 <= i < self@.len() && 65 <= self@[i] <= 90 ==> #[trigger] r@[i] as int == self@[i]
                    + 32,
            forall|i: int|
                0 <= i < self@.len() && !(65 <= self@[i] <= 90) ==> #[trigger] r@[i] as int
                    == self@[i],
    {
        let mut r: String = String::new();
        for c in it: self.lowercase_char_iter()
            invariant
                it.seq() == ascii::text(ascii::lower(self@)),
                r@ == it.seq().take(it.index()),
        {
            r.push(c);
            assert(it.seq().take(it.index() + 1) =~= it.seq().take(it.index()).push(c));
        }
        assert(r@ =~= ascii::text(ascii::lower(self@)));
        r
    }

    /// Creates a byte iterator over the ASCII byte values (ASCII characters) of this HRP.
    ///
    /// If an uppercase HRP was parsed during object construction then this iterator will yield
    /// uppercase ASCII `char`s. For lowercase bytes see [`Hrp::lowercase_byte_iter`]
    pub fn byte_iter(&self) -> (r: ByteIter<'_>)
        ensures
            r.rest() == self@,
            vstd::std_specs::iter::IteratorSpec::remaining(&r) == self@,
    {
        ByteIter::new(self.as_bytes())
    }

    /// Creates a character iterator over the ASCII characters of this HRP.
    ///
    /// If an uppercase HRP was parsed during object construction then this iterator will yield
    /// uppercase ASCII `char`s. For lowercase bytes see [`Hrp::lowercase_char_iter`].
    pub fn char_iter(&self) -> (r: CharIter<'_>)
        ensures
            r.rest() == ascii::text(self@),
            vstd::std_specs::iter::IteratorSpec::remaining(&r) == ascii::text(self@),
    {
        CharIter::new(self.byte_iter())
    }

    /// Creates a lowercase iterator over the byte values (ASCII characters) of this HRP.
    pub fn lowercase_byte_iter(&self) -> (r: LowercaseByteIter<'_>)
        ensures
            r.rest() == ascii::lower(self@),
            vstd::std_specs::iter::IteratorSpec::remaining(&r) == ascii::lower(self@),
    {
        LowercaseByteIter::new(self.byte_iter())
    }

    /// Creates a lowercase character iterator over the ASCII characters of this HRP.
    pub fn lowercase_char_iter(&self) -> (r: LowercaseCharIter<'_>)
        ensures
            r.rest() == ascii::text(ascii::lower(self@)),
            vstd::std_specs::iter::IteratorSpec::remaining(&r) == ascii::text(ascii::lower(self@)),
    {
        LowercaseCharIter::new(self.lowercase_byte_iter())
    }

    /// Returns the length (number of characters) of the human-readable part.
    ///
    /// It is between 1 and 83 inclusive for every part that was checked (`law_parsed_length`) and for
    /// every non-empty text that was not (`law_unchecked_is_printable`). It is 0 only for an empty
    /// text that was not checked.
    pub fn len(&self) -> (r: usize)
        ensures
            r == self@.len(),
            r <= MAX_LEN,
    {
        self.as_bytes().len()
    }

    /// Returns `true` if this HRP is valid according to the bips.
    ///
    /// [BIP-173] states that the HRP must be either "bc" or "tb".
    ///
    /// [BIP-173]: <https://github.com/bitcoin/bips/blob/master/bip-0173.mediawiki#user-content-Segwit_address_format>
    pub fn is_valid_segwit(&self) -> (r: bool)
        ensures
            r <==> ascii::lower(self@) == bc() || ascii::lower(self@) == tb(),
            r <==> (self@.len() == 2 && (self@[0] == 66 || self@[0] == 98)
                && (self@[1] == 67 || self@[1] == 99)) || (
            self@.len() == 2 && (self@[0] == 84 || self@[0] == 116)
                && (self@[1] == 66 || self@[1] == 98)),
    {
        proof {
            meaning::law_networks_by_number(*self);
        }
        self.is_valid_on_mainnet() || self.is_valid_on_testnet()
    }

    /// Returns `true` if this HRP is valid on the Bitcoin network i.e., HRP is "bc".
    pub fn is_valid_on_mainnet(&self) -> (r: bool)
        ensures
            r <==> ascii::lower(self@) == bc(),
            r <==> self@.len() == 2 && (self@[0] == 66 || self@[0] == 98)
                && (self@[1] == 67 || self@[1] == 99),
    {
        proof {
            meaning::law_networks_by_number(*self);
        }
        assert(ascii::lower(bc()) =~= bc());
        *self == BC()
    }

    /// Returns `true` if this HRP is valid on the Bitcoin testnet network i.e., HRP is "tb".
    pub fn is_valid_on_testnet(&self) -> (r: bool)
        ensures
            r <==> ascii::lower(self@) == tb(),
            r <==> self@.len() == 2 && (self@[0] == 84 || self@[0] == 116)
                && (self@[1] == 66 || self@[1] == 98),
    {
        proof {
            meaning::law_networks_by_number(*self);
        }
        assert(ascii::lower(tb()) =~= tb());
        *self == TB()
    }

    /// Returns `true` if this HRP is valid on the Bitcoin signet network i.e., HRP is "tb".
    pub fn is_valid_on_signet(&self) -> (r: bool)
        ensures
            r <==> ascii::lower(self@) == tb(),
            r <==> self@.len() == 2 && (self@[0] == 84 || self@[0] == 116)
                && (self@[1] == 66 || self@[1] == 98),
    {
        proof {
            meaning::law_networks_by_number(*self);
        }
        assert(ascii::lower(tb()) =~= tb());
        *self == TB()
    }

    /// Returns `true` if this HRP is valid on the Bitcoin regtest network i.e., HRP is "bcrt".
    pub fn is_valid_on_regtest(&self) -> (r: bool)
        ensures
            r <==> ascii::lower(self@) == bcrt(),
            r <==> self@.len() == 4 && (self@[0] == 66 || self@[0] == 98)
                && (self@[1] == 67 || self@[1] == 99) && (self@[2] == 82 || self@[2] == 114)
                && (self@[3] == 84 || self@[3] == 116),
    {
        proof {
            meaning::law_networks_by_number(*self);
        }
        assert(ascii::lower(bcrt()) =~= bcrt());
        *self == BCRT()
    }
}

impl Clone for Hrp {
    fn clone(&self) -> (r: Self)
        ensures
            r@ == self@,
    {
        proof {
            use_type_invariant(self);
        }
        if !self.is_inline() {
            return Self::wrap(Self::new_heap(self.as_bytes()));
        }
        Self::wrap(self.repr.copy_inline())
    }
}

} // verus!
