//! Iterators over a human-readable part, from either end.

use vstd::prelude::*;

use super::ascii;

verus! {

/// Iterator over bytes (ASCII values) of the human-readable part.
///
/// ASCII byte values as they were initially parsed (i.e., in the original case).
pub struct ByteIter<'b> {
    bytes: &'b [u8],
    front: usize,
    back: usize,
}

impl<'b> ByteIter<'b> {
    /// What is left to yield lies within the bytes.
    #[verifier::type_invariant]
    spec fn inv(self) -> bool {
        self.front <= self.back <= self.bytes@.len()
    }

    /// What the iterator has still to yield, from the front to the back.
    pub closed spec fn rest(self) -> Seq<u8> {
        self.bytes@.subrange(self.front as int, self.back as int)
    }

    /// An iterator over all of `bytes`.
    pub(crate) fn new(bytes: &'b [u8]) -> (r: Self)
        ensures
            r.rest() == bytes@,
    {
        let r: ByteIter<'b> = ByteIter { bytes, front: 0, back: bytes.len() };
        assert(r.rest() =~= bytes@);
        r
    }
}

impl<'b> Iterator for ByteIter<'b> {
    type Item = u8;

    fn next(&mut self) -> (r: Option<u8>) {
        proof {
            use_type_invariant(&*self);
        }
        if self.front < self.back {
            let b: u8 = self.bytes[self.front];
            self.front = self.front + 1;
            Some(b)
        } else {
            None
        }
    }

    fn size_hint(&self) -> (r: (usize, Option<usize>))
        ensures
            r.0 == self.rest().len(),
            r.1 == Some(r.0),
    {
        let n: usize = self.len();
        (n, Some(n))
    }
}

impl<'b> ExactSizeIterator for ByteIter<'b> {
    fn len(&self) -> (r: usize)
        ensures
            r == self.rest().len(),
    {
        proof {
            use_type_invariant(self);
        }
        self.back - self.front
    }
}

impl<'b> DoubleEndedIterator for ByteIter<'b> {
    fn next_back(&mut self) -> (r: Option<u8>) {
        proof {
            use_type_invariant(&*self);
        }
        if self.front < self.back {
            self.back = self.back - 1;
            Some(self.bytes[self.back])
        } else {
            None
        }
    }
}

impl<'b> core::iter::FusedIterator for ByteIter<'b> {

}

impl<'b> vstd::std_specs::iter::IteratorSpecImpl for ByteIter<'b> {
    open spec fn obeys_prophetic_iter_laws(&self) -> bool {
        true
    }

    open spec fn remaining(&self) -> Seq<u8> {
        self.rest()
    }

    open spec fn will_return_none(&self) -> bool {
        true
    }

    open spec fn decrease(&self) -> Option<nat> {
        Some(self.rest().len())
    }

    open spec fn initial_value_relation(&self, init: &Self) -> bool {
        self.rest() == init.rest()
    }

    open spec fn peek(&self, index: int) -> Option<u8> {
        if 0 <= index < self.rest().len() {
            Some(self.rest()[index])
        } else {
            None
        }
    }
}

impl<'b> vstd::std_specs::iter::DoubleEndedIteratorSpecImpl for ByteIter<'b> {
    open spec fn peek_back(&self, index: int) -> Option<u8> {
        if 0 <= index < self.rest().len() {
            Some(self.rest()[self.rest().len() - 1 - index])
        } else {
            None
        }
    }
}

/// Iterator over ASCII characters of the human-readable part.
///
/// ASCII `char`s as they were initially parsed (i.e., in the original case).
pub struct CharIter<'b> {
    iter: ByteIter<'b>,
}

impl<'b> CharIter<'b> {
    /// What the iterator has still to yield, from the front to the back.
    pub closed spec fn rest(self) -> Seq<char> {
        ascii::text(self.iter.rest())
    }

    /// The characters that the bytes of `iter` stand for.
    pub(crate) fn new(iter: ByteIter<'b>) -> (r: Self)
        ensures
            r.rest() == ascii::text(iter.rest()),
    {
        CharIter { iter }
    }
}

impl<'b> Iterator for CharIter<'b> {
    type Item = char;

    fn next(&mut self) -> (r: Option<char>) {
        let ghost before = self.iter.rest();
        match self.iter.next() {
            Some(b) => {
                assert(ascii::text(before.drop_first()) =~= ascii::text(before).drop_first());
                Some(b as char)
            },
            None => None,
        }
    }

    fn size_hint(&self) -> (r: (usize, Option<usize>))
        ensures
            r.0 == self.rest().len(),
            r.1 == Some(r.0),
    {
        self.iter.size_hint()
    }
}

impl<'b> ExactSizeIterator for CharIter<'b> {
    fn len(&self) -> (r: usize)
        ensures
            r == self.rest().len(),
    {
        self.iter.len()
    }
}

impl<'b> DoubleEndedIterator for CharIter<'b> {
    fn next_back(&mut self) -> (r: Option<char>) {
        let ghost before = self.iter.rest();
        match self.iter.next_back() {
            Some(b) => {
                assert(ascii::text(before.drop_last()) =~= ascii::text(before).drop_last());
                Some(b as char)
            },
            None => None,
        }
    }
}

impl<'b> core::iter::FusedIterator for CharIter<'b> {

}

impl<'b> vstd::std_specs::iter::IteratorSpecImpl for CharIter<'b> {
    open spec fn obeys_prophetic_iter_laws(&self) -> bool {
        true
    }

    open spec fn remaining(&self) -> Seq<char> {
        self.rest()
    }

    open spec fn will_return_none(&self) -> bool {
        true
    }

    open spec fn decrease(&self) -> Option<nat> {
        Some(self.rest().len())
    }

    open spec fn initial_value_relation(&self, init: &Self) -> bool {
        self.rest() == init.rest()
    }

    open spec fn peek(&self, index: int) -> Option<char> {
        if 0 <= index < self.rest().len() {
            Some(self.rest()[index])
        } else {
            None
        }
    }
}

impl<'b> vstd::std_specs::iter::DoubleEndedIteratorSpecImpl for CharIter<'b> {
    open spec fn peek_back(&self, index: int) -> Option<char> {
        if 0 <= index < self.rest().len() {
            Some(self.rest()[self.rest().len() - 1 - index])
        } else {
            None
        }
    }
}

/// Iterator over lowercase bytes (ASCII characters) of the human-readable part.
pub struct LowercaseByteIter<'b> {
    iter: ByteIter<'b>,
}

impl<'b> LowercaseByteIter<'b> {
    /// What the iterator has still to yield, from the front to the back.
    pub closed spec fn rest(self) -> Seq<u8> {
        ascii::lower(self.iter.rest())
    }

    /// The lower case of the bytes of `iter`.
    pub(crate) fn new(iter: ByteIter<'b>) -> (r: Self)
        ensures
            r.rest() == ascii::lower(iter.rest()),
    {
        LowercaseByteIter { iter }
    }
}

impl<'b> Iterator for LowercaseByteIter<'b> {
    type Item = u8;

    fn next(&mut self) -> (r: Option<u8>) {
        let ghost before = self.iter.rest();
        match self.iter.next() {
            Some(b) => {
                assert(ascii::lower(before.drop_first()) =~= ascii::lower(before).drop_first());
                Some(ascii::to_lower(b))
            },
            None => None,
        }
    }

    fn size_hint(&self) -> (r: (usize, Option<usize>))
        ensures
            r.0 == self.rest().len(),
            r.1 == Some(r.0),
    {
        self.iter.size_hint()
    }
}

impl<'b> ExactSizeIterator for LowercaseByteIter<'b> {
    fn len(&self) -> (r: usize)
        ensures
            r == self.rest().len(),
    {
        self.iter.len()
    }
}

impl<'b> DoubleEndedIterator for LowercaseByteIter<'b> {
    fn next_back(&mut self) -> (r: Option<u8>) {
        let ghost before = self.iter.rest();
        match self.iter.next_back() {
            Some(b) => {
                assert(ascii::lower(before.drop_last()) =~= ascii::lower(before).drop_last());
                Some(ascii::to_lower(b))
            },
            None => None,
        }
    }
}

impl<'b> core::iter::FusedIterator for LowercaseByteIter<'b> {

}

impl<'b> vstd::std_specs::iter::IteratorSpecImpl for LowercaseByteIter<'b> {
    open spec fn obeys_prophetic_iter_laws(&self) -> bool {
        true
    }

    open spec fn remaining(&self) -> Seq<u8> {
        self.rest()
    }

    open spec fn will_return_none(&self) -> bool {
        true
    }

    open spec fn decrease(&self) -> Option<nat> {
        Some(self.rest().len())
    }

    open spec fn initial_value_relation(&self, init: &Self) -> bool {
        self.rest() == init.rest()
    }

    open spec fn peek(&self, index: int) -> Option<u8> {
        if 0 <= index < self.rest().len() {
            Some(self.rest()[index])
        } else {
            None
        }
    }
}

impl<'b> vstd::std_specs::iter::DoubleEndedIteratorSpecImpl for LowercaseByteIter<'b> {
    open spec fn peek_back(&self, index: int) -> Option<u8> {
        if 0 <= index < self.rest().len() {
            Some(self.rest()[self.rest().len() - 1 - index])
        } else {
            None
        }
    }
}

/// Iterator over lowercase ASCII characters of the human-readable part.
pub struct LowercaseCharIter<'b> {
    iter: LowercaseByteIter<'b>,
}

impl<'b> LowercaseCharIter<'b> {
    /// What the iterator has still to yield, from the front to the back.
    pub closed spec fn rest(self) -> Seq<char> {
        ascii::text(self.iter.rest())
    }

    /// The characters that the bytes of `iter` stand for.
    pub(crate) fn new(iter: LowercaseByteIter<'b>) -> (r: Self)
        ensures
            r.rest() == ascii::text(iter.rest()),
    {
        LowercaseCharIter { iter }
    }
}

impl<'b> Iterator for LowercaseCharIter<'b> {
    type Item = char;

    fn next(&mut self) -> (r: Option<char>) {
        let ghost before = self.iter.rest();
        match self.iter.next() {
            Some(b) => {
                assert(ascii::text(before.drop_first()) =~= ascii::text(before).drop_first());
                Some(b as char)
            },
            None => None,
        }
    }

    fn size_hint(&self) -> (r: (usize, Option<usize>))
        ensures
            r.0 == self.rest().len(),
            r.1 == Some(r.0),
    {
        self.iter.size_hint()
    }
}

impl<'b> ExactSizeIterator for LowercaseCharIter<'b> {
    fn len(&self) -> (r: usize)
        ensures
            r == self.rest().len(),
    {
        self.iter.len()
    }
}

impl<'b> DoubleEndedIterator for LowercaseCharIter<'b> {
    fn next_back(&mut self) -> (r: Option<char>) {
        let ghost before = self.iter.rest();
        match self.iter.next_back() {
            Some(b) => {
                assert(ascii::text(before.drop_last()) =~= ascii::text(before).drop_last());
                Some(b as char)
            },
            None => None,
        }
    }
}

impl<'b> core::iter::FusedIterator for LowercaseCharIter<'b> {

}

impl<'b> vstd::std_specs::iter::IteratorSpecImpl for LowercaseCharIter<'b> {
    open spec fn obeys_prophetic_iter_laws(&self) -> bool {
        true
    }

    open spec fn remaining(&self) -> Seq<char> {
        self.rest()
    }

    open spec fn will_return_none(&self) -> bool {
        true
    }

    open spec fn decrease(&self) -> Option<nat> {
        Some(self.rest().len())
    }

    open spec fn initial_value_relation(&self, init: &Self) -> bool {
        self.rest() == init.rest()
    }

    open spec fn peek(&self, index: int) -> Option<char> {
        if 0 <= index < self.rest().len() {
            Some(self.rest()[index])
        } else {
            None
        }
    }
}

impl<'b> vstd::std_specs::iter::DoubleEndedIteratorSpecImpl for LowercaseCharIter<'b> {
    open spec fn peek_back(&self, index: int) -> Option<char> {
        if 0 <= index < self.rest().len() {
            Some(self.rest()[self.rest().len() - 1 - index])
        } else {
            None
        }
    }
}

} // verus!
