//! Parsing of a human-readable part that arrives in pieces.

use vstd::prelude::*;
use vstd::utf8;

use super::lemmas;
use super::validity;
use super::{Error, Hrp, MAX_LEN};

verus! {

/// Takes the text of a human-readable part in pieces, checks it on the way and keeps its bytes.
///
/// It is a [`core::fmt::Write`], so that a value can be formatted straight into it.
///
/// The view of a `ByteFormatter` is the text that was written to it.
pub struct ByteFormatter {
    arr: [u8; MAX_LEN],
    max_len: usize,
    index: usize,
    error: Option<Error>,
    has_lower: bool,
    has_upper: bool,
    text: Ghost<Seq<char>>,
}

impl View for ByteFormatter {
    type V = Seq<char>;

    closed spec fn view(&self) -> Seq<char> {
        self.text@
    }
}

impl ByteFormatter {
    /// The bytes, the error and the case flags are those of the text so far.
    #[verifier::type_invariant]
    spec fn inv(self) -> bool {
        let bytes = utf8::encode_utf8(self@);
        &&& self.max_len <= MAX_LEN
        &&& self.index == validity::byte_len(self@)
        &&& self.index <= self.max_len ==> self.arr@.take(self.index as int) == bytes
        &&& self.error == if self.index > self.max_len {
            Some(Error::TooLong(self.index))
        } else {
            validity::first_fault(self@)
        }
        &&& self.error is None ==> {
            &&& self.has_lower == validity::has_lower(self@)
            &&& self.has_upper == validity::has_upper(self@)
        }
    }

    /// The longest human-readable part that is accepted.
    pub closed spec fn limit(&self) -> nat {
        self.max_len as nat
    }

    /// A formatter to which nothing was written yet and which accepts up to `max_len` bytes.
    pub fn new(max_len: usize) -> (r: Self)
        requires
            max_len <= MAX_LEN,
        ensures
            r@ == Seq::<char>::empty(),
            r.limit() == max_len,
    {
        let arr: [u8; MAX_LEN] = [0; MAX_LEN];
        assert(arr@.take(0) =~= utf8::encode_utf8(Seq::empty()));
        ByteFormatter {
            arr,
            max_len,
            index: 0,
            error: None,
            has_lower: false,
            has_upper: false,
            text: Ghost(Seq::empty()),
        }
    }

    /// Takes one more piece of the text.
    ///
    /// Of the characters that are at fault the first is kept, whichever piece it is in. An invalid
    /// length takes priority over an invalid character, and counts all that was written.
    pub fn append(&mut self, s: &str)
        ensures
            final(self)@ == old(self)@ + s@,
            final(self).limit() == old(self).limit(),
    {
        proof {
            use_type_invariant(&*self);
            lemmas::lemma_encode_concat(self@, s@);
        }
        let bytes: &[u8] = s.as_bytes();
        let n: usize = bytes.len();
        let end: usize = self.index.saturating_add(n);
        let ghost whole = self@ + s@;
        let max_len: usize = self.max_len;
        let mut error: Option<Error> = self.error.clone();
        let mut has_lower: bool = self.has_lower;
        let mut has_upper: bool = self.has_upper;
        let mut arr: [u8; MAX_LEN] = self.arr;
        if end > max_len {
            error = Some(Error::TooLong(end));
        } else {
            if error.is_none() {
                let (e, l, u) = validity::scan(Ghost(self@), s, has_lower, has_upper);
                error = e;
                has_lower = l;
                has_upper = u;
            } else {
                proof {
                    lemmas::lemma_first_fault_extend(self@, s@);
                }
            }
            let start: usize = self.index;
            let mut i: usize = 0;
            while i < n
                invariant
                    i <= n,
                    n == bytes@.len(),
                    start + n <= max_len <= MAX_LEN,
                    arr@.take(start as int) == self.arr@.take(start as int),
                    forall|j: int| 0 <= j < i ==> arr@[start + j] == #[trigger] bytes@[j],
                decreases n - i,
            {
                let ghost before = arr@;
                arr[start + i] = bytes[i];
                assert(arr@.take(start as int) =~= before.take(start as int));
                i = i + 1;
            }
            assert(arr@.take(end as int) =~= self.arr@.take(start as int) + bytes@);
        }
        *self =
        ByteFormatter { arr, max_len, index: end, error, has_lower, has_upper, text: Ghost(whole) };
    }

    /// The human-readable part that was written, or what is wrong with it.
    pub fn finish(self) -> (r: Result<Hrp, Error>)
        ensures
            r is Ok <==> validity::valid_text(self@, self.limit()),
            match r {
                Ok(h) => validity::checked(self@, self.limit()) == Ok::<Seq<u8>, Error>(h@),
                Err(e) => validity::checked(self@, self.limit()) == Err::<Seq<u8>, Error>(e),
            },
    {
        proof {
            use_type_invariant(&self);
            lemmas::lemma_checked_valid(self@, self.limit());
        }
        if self.index == 0 {
            return Err(Error::Empty);
        }
        match self.error {
            Some(e) => Err(e),
            None => Ok(Hrp::new(&self.arr[0..self.index])),
        }
    }
}

impl core::fmt::Write for ByteFormatter {
    fn write_str(&mut self, s: &str) -> (r: Result<(), core::fmt::Error>)
        ensures
            r is Ok,
            final(self)@ == old(self)@ + s@,
            final(self).limit() == old(self).limit(),
    {
        self.append(s);
        Ok(())
    }
}

} // verus!
