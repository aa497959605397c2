//! What can be wrong with a human-readable part.

use vstd::prelude::*;

use super::numeral;
use super::MAX_LEN;

verus! {

/// Errors encountered while checking the human-readable part as defined by [BIP-173].
///
/// [BIP-173]: <https://github.com/bitcoin/bips/blob/master/bip-0173.mediawiki#user-content-Bech32>
#[derive(Debug, PartialEq, Eq, Structural)]
#[non_exhaustive]
pub enum Error {
    /// The human-readable part is too long.
    TooLong(usize),
    /// The human-readable part is empty.
    Empty,
    /// Found a non-ASCII character.
    NonAsciiChar(char),
    /// Byte value not within acceptable US-ASCII range.
    InvalidAsciiByte(u8),
    /// The human-readable part cannot mix upper and lower case.
    MixedCase,
}

impl Clone for Error {
    fn clone(&self) -> (r: Self)
        ensures
            r == *self,
    {
        match self {
            Error::TooLong(len) => Error::TooLong(*len),
            Error::Empty => Error::Empty,
            Error::NonAsciiChar(c) => Error::NonAsciiChar(*c),
            Error::InvalidAsciiByte(b) => Error::InvalidAsciiByte(*b),
            Error::MixedCase => Error::MixedCase,
        }
    }
}

/// What an error is called, where human-readable parts of up to `max_len` bytes are accepted.
pub open spec fn error_text(e: Error, max_len: nat) -> Seq<char> {
    match e {
        Error::TooLong(len) => "hrp is too long, found "@ + numeral::numeral(len as nat, 10)
            + " characters, must be <= "@ + numeral::numeral(max_len, 10),
        Error::Empty => "hrp is empty, must have at least 1 character"@,
        Error::NonAsciiChar(c) => "found non-ASCII character: "@.push(c),
        Error::InvalidAsciiByte(b) => "byte value is not valid US-ASCII: '"@ + numeral::numeral(
            b as nat,
            16,
        ) + "'"@,
        Error::MixedCase => "hrp cannot mix upper and lower case"@,
    }
}

impl Error {
    /// What the error is called.
    pub fn message(&self) -> (r: String)
        ensures
            r@ == error_text(*self, MAX_LEN as nat),
    {
        self.message_within(MAX_LEN)
    }

    /// What the error is called where the limit was `max_len`, as in
    /// [`Hrp::parse_within`](super::Hrp::parse_within).
    pub fn message_within(&self, max_len: usize) -> (r: String)
        ensures
            r@ == error_text(*self, max_len as nat),
    {
        match self {
            Error::TooLong(len) => {
                let mut r: String = "hrp is too long, found ".to_owned();
                numeral::push_numeral(&mut r, *len, 10);
                r.append(" characters, must be <= ");
                numeral::push_numeral(&mut r, max_len, 10);
                r
            },
            Error::Empty => "hrp is empty, must have at least 1 character".to_owned(),
            Error::NonAsciiChar(c) => {
                let mut r: String = "found non-ASCII character: ".to_owned();
                r.push(*c);
                r
            },
            Error::InvalidAsciiByte(b) => {
                let mut r: String = "byte value is not valid US-ASCII: '".to_owned();
                numeral::push_numeral(&mut r, *b as usize, 16);
                r.append("'");
                r
            },
            Error::MixedCase => "hrp cannot mix upper and lower case".to_owned(),
        }
    }
}

} // verus!
