//! Human-readable parts and errors as text.
//!
//! Whether a destination takes what is written to it is its own affair. The contracts say what was
//! written where it takes all, that nothing follows the first write that it refuses, and that only a
//! refused write makes formatting fail.

use vstd::prelude::*;

use super::ascii;
use super::error;
use super::numeral;
use super::std_items;
use super::{Error, Hrp, MAX_LEN};

verus! {

/// What is written at once.
enum Piece<'a> {
    /// A string.
    Text(&'a str),
    /// A single character.
    Letter(char),
}

impl<'a> Piece<'a> {
    /// The characters of the piece.
    spec fn chars(self) -> Seq<char> {
        match self {
            Piece::Text(s) => s@,
            Piece::Letter(c) => seq![c],
        }
    }
}

/// The text that pieces make behind each other.
spec fn joined(pieces: Seq<Piece<'_>>) -> Seq<char>
    decreases pieces.len(),
{
    if pieces.len() == 0 {
        Seq::empty()
    } else {
        joined(pieces.drop_last()) + pieces.last().chars()
    }
}

/// The first pieces make the beginning of the text, and not all of it.
proof fn lemma_joined_take(pieces: Seq<Piece<'_>>, k: int)
    requires
        0 <= k < pieces.len(),
        pieces[k].chars().len() > 0,
    ensures
        joined(pieces.take(k)).len() < joined(pieces).len(),
        joined(pieces.take(k)) == joined(pieces).take(joined(pieces.take(k)).len() as int),
    decreases pieces.len(),
{
    let init = pieces.drop_last();
    assert(joined(pieces) == joined(init) + pieces.last().chars());
    if k == pieces.len() - 1 {
        assert(pieces.take(k) =~= init);
    } else {
        lemma_joined_take(init, k);
        assert(pieces.take(k) =~= init.take(k));
    }
    let shown = joined(pieces.take(k));
    assert(shown =~= joined(pieces).take(shown.len() as int));
}

/// Writes one piece.
fn put(f: &mut core::fmt::Formatter<'_>, piece: &Piece<'_>) -> (r: Result<(), core::fmt::Error>)
    ensures
        r is Ok ==> std_items::written(*final(f)) == std_items::written(*old(f)) + piece.chars(),
        r is Ok ==> std_items::refused(*final(f)) == std_items::refused(*old(f)),
        r is Err ==> std_items::written(*final(f)) == std_items::written(*old(f)),
        r is Err ==> std_items::refused(*final(f)) == std_items::refused(*old(f)) + 1,
{
    match piece {
        Piece::Text(s) => std_items::write_str(f, s),
        Piece::Letter(c) => {
            assert(std_items::written(*f) + seq![*c] =~= std_items::written(*f).push(*c));
            std_items::write_char(f, *c)
        },
    }
}

/// Writes the pieces, up to the first that the destination refuses.
fn put_all(f: &mut core::fmt::Formatter<'_>, pieces: &[Piece<'_>]) -> (r: Result<
    (),
    core::fmt::Error,
>)
    requires
        forall|i: int| 0 <= i < pieces@.len() ==> (#[trigger] pieces@[i]).chars().len() > 0,
    ensures
        r is Ok ==> std_items::written(*final(f)) == std_items::written(*old(f)) + joined(pieces@),
        r is Ok ==> std_items::refused(*final(f)) == std_items::refused(*old(f)),
        r is Err ==> std_items::refused(*final(f)) == std_items::refused(*old(f)) + 1,
        r is Err ==> std_items::cut_short(
            std_items::written(*old(f)),
            std_items::written(*final(f)),
            joined(pieces@),
        ),
{
    let ghost before = std_items::written(*f);
    let n: usize = pieces.len();
    let mut i: usize = 0;
    assert(pieces@.take(0) =~= Seq::empty());
    assert(before + Seq::empty() =~= before);
    while i < n
        invariant
            i <= n,
            n == pieces@.len(),
            forall|i: int| 0 <= i < pieces@.len() ==> (#[trigger] pieces@[i]).chars().len() > 0,
            before == std_items::written(*old(f)),
            std_items::refused(*f) == std_items::refused(*old(f)),
            std_items::written(*f) == before + joined(pieces@.take(i as int)),
        decreases n - i,
    {
        let result: Result<(), core::fmt::Error> = put(f, &pieces[i]);
        if result.is_err() {
            proof {
                lemma_joined_take(pieces@, i as int);
            }
            return result;
        }
        assert(pieces@.take(i + 1).drop_last() =~= pieces@.take(i as int));
        assert(std_items::written(*f) =~= before + joined(pieces@.take(i + 1)));
        i = i + 1;
    }
    assert(pieces@.take(n as int) =~= pieces@);
    Ok(())
}

/// Shows the human-readable part between quotes, as a string is shown.
impl core::fmt::Debug for Hrp {
    fn fmt(&self, f: &mut core::fmt::Formatter<'_>) -> (r: Result<(), core::fmt::Error>)
        ensures
            r is Ok <==> std_items::refused(*final(f)) == std_items::refused(*old(f)),
            r is Ok ==> std_items::written(*final(f)) == std_items::written(*old(f))
                + std_items::quoted(ascii::text(self@)),
            r is Err ==> std_items::refused(*final(f)) == std_items::refused(*old(f)) + 1,
            r is Err ==> std_items::cut_short(
                std_items::written(*old(f)),
                std_items::written(*final(f)),
                std_items::quoted(ascii::text(self@)),
            ),
    {
        proof {
            use_type_invariant(self);
            assert forall|i: int| 0 <= i < self@.len() implies #[trigger] ascii::printable_char(
                ascii::text(self@)[i],
            ) by {
                assert(ascii::printable(self@[i]));
            }
        }
        std_items::write_quoted(f, self.as_str())
    }
}

/// Displays the human-readable part, character by character.
///
/// If an uppercase HRP was parsed during object construction then the returned string will be
/// in uppercase also. For a lowercase string see [`Hrp::to_lowercase`].
impl core::fmt::Display for Hrp {
    fn fmt(&self, f: &mut core::fmt::Formatter<'_>) -> (r: Result<(), core::fmt::Error>)
        ensures
            self@.len() == 0 ==> r is Ok,
            r is Ok <==> std_items::refused(*final(f)) == std_items::refused(*old(f)),
            r is Ok ==> std_items::written(*final(f)) == std_items::written(*old(f)) + ascii::text(
                self@,
            ),
            r is Err ==> std_items::refused(*final(f)) == std_items::refused(*old(f)) + 1,
            r is Err ==> std_items::cut_short(
                std_items::written(*old(f)),
                std_items::written(*final(f)),
                ascii::text(self@),
            ),
    {
        let ghost before = std_items::written(*f);
        assert(before =~= before + ascii::text(self@).take(0));
        for c in it: self.char_iter()
            invariant
                it.seq() == ascii::text(self@),
                before == std_items::written(*old(f)),
            std_items::refused(*f) == std_items::refused(*old(f)),
                std_items::written(*f) == before + ascii::text(self@).take(it.index()),
        {
            let result: Result<(), core::fmt::Error> = std_items::write_char(f, c);
            if result.is_err() {
                return result;
            }
            assert(std_items::written(*f) =~= before + ascii::text(self@).take(it.index() + 1));
        }
        assert(ascii::text(self@).take(self@.len() as int) =~= ascii::text(self@));
        Ok(())
    }
}

/// Displays the message of the error, its fixed parts and the values between them each at once.
impl core::fmt::Display for Error {
    fn fmt(&self, f: &mut core::fmt::Formatter<'_>) -> (r: Result<(), core::fmt::Error>)
        ensures
            r is Ok <==> std_items::refused(*final(f)) == std_items::refused(*old(f)),
            r is Ok ==> std_items::written(*final(f)) == std_items::written(*old(f))
                + error::error_text(*self, MAX_LEN as nat),
            r is Err ==> std_items::refused(*final(f)) == std_items::refused(*old(f)) + 1,
            r is Err ==> std_items::cut_short(
                std_items::written(*old(f)),
                std_items::written(*final(f)),
                error::error_text(*self, MAX_LEN as nat),
            ),
    {
        proof {
            reveal_with_fuel(joined, 5);
            reveal_strlit("hrp is too long, found ");
            reveal_strlit(" characters, must be <= ");
            reveal_strlit("hrp is empty, must have at least 1 character");
            reveal_strlit("found non-ASCII character: ");
            reveal_strlit("byte value is not valid US-ASCII: '");
            reveal_strlit("'");
            reveal_strlit("hrp cannot mix upper and lower case");
        }
        match self {
            Error::TooLong(len) => {
                let found: String = numeral::to_numeral(*len, 10);
                let limit: String = numeral::to_numeral(MAX_LEN, 10);
                let pieces: [Piece<'_>; 4] = [
                    Piece::Text("hrp is too long, found "),
                    Piece::Text(found.as_str()),
                    Piece::Text(" characters, must be <= "),
                    Piece::Text(limit.as_str()),
                ];
                assert(joined(pieces@) =~= error::error_text(*self, MAX_LEN as nat));
                put_all(f, &pieces)
            },
            Error::Empty => {
                let pieces: [Piece<'_>; 1] = [
                    Piece::Text("hrp is empty, must have at least 1 character"),
                ];
                assert(joined(pieces@) =~= error::error_text(*self, MAX_LEN as nat));
                put_all(f, &pieces)
            },
            Error::NonAsciiChar(c) => {
                let pieces: [Piece<'_>; 2] = [
                    Piece::Text("found non-ASCII character: "),
                    Piece::Letter(*c),
                ];
                assert(joined(pieces@) =~= error::error_text(*self, MAX_LEN as nat));
                put_all(f, &pieces)
            },
            Error::InvalidAsciiByte(b) => {
                let byte: String = numeral::to_numeral(*b as usize, 16);
                let pieces: [Piece<'_>; 3] = [
                    Piece::Text("byte value is not valid US-ASCII: '"),
                    Piece::Text(byte.as_str()),
                    Piece::Text("'"),
                ];
                assert(joined(pieces@) =~= error::error_text(*self, MAX_LEN as nat));
                put_all(f, &pieces)
            },
            Error::MixedCase => {
                let pieces: [Piece<'_>; 1] = [Piece::Text("hrp cannot mix upper and lower case")];
                assert(joined(pieces@) =~= error::error_text(*self, MAX_LEN as nat));
                put_all(f, &pieces)
            },
        }
    }
}

impl std::error::Error for Error {

}

} // verus!
