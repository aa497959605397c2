//! Storage of an `Hrp`.
//!
//! Either up to `INLINE_LEN` bytes in place, or a heap block for the bytes alone. An `Hrp` points to
//! its storage, so that bytes in place lie in the heap block that holds it. The two are told
//! apart by the least significant bit of the tag byte, which is set for bytes in place. The rest of
//! the tag holds their number; a heap block holds the number of its bytes in front of them.

use vstd::prelude::*;

verus! {

/// Number of bytes that are stored in place, without a heap block of their own.
pub const INLINE_LEN: usize = 7;

/// Bytes stored in place or in a heap block of their own.
pub(crate) struct Repr {
    tag: u8,
    data: [u8; INLINE_LEN],
    heap: Vec<u8>,
}

impl View for Repr {
    type V = Seq<u8>;

    closed spec fn view(&self) -> Seq<u8> {
        if self.inline() {
            self.data@.take(self.tag as int / 2)
        } else {
            self.heap@.skip(1)
        }
    }
}

impl Repr {
    /// The bytes are stored in place.
    pub closed spec fn inline(&self) -> bool {
        self.tag % 2 == 1
    }

    /// The tag or the length in front of the heap block agrees with what is stored.
    pub closed spec fn wf(&self) -> bool {
        if self.inline() {
            &&& self.tag / 2 <= INLINE_LEN
            &&& self.heap@.len() == 0
        } else {
            &&& self.tag == 0
            &&& self.heap@.len() > 0
            &&& self.heap@.len() == self.heap@[0] + 1
        }
    }

    /// Stores the first `len` bytes of `data` in place.
    pub(crate) fn new_inline(data: [u8; INLINE_LEN], len: usize) -> (r: Self)
        requires
            len <= INLINE_LEN,
        ensures
            r.wf(),
            r.inline(),
            r@ == data@.take(len as int),
    {
        let n: u8 = len as u8;
        // The set least significant bit is what distinguishes bytes in place from a heap block.
        let tag: u8 = (n << 1) | 1;
        assert(tag == 2 * n + 1) by (bit_vector)
            requires
                n <= 7,
                tag == (n << 1) | 1,
        ;
        Repr { tag, data, heap: Vec::new() }
    }

    /// Stores a heap block: a length that is followed by that many bytes.
    pub(crate) fn new_heap(block: Vec<u8>) -> (r: Self)
        requires
            block@.len() > 0,
            block@.len() == block@[0] + 1,
        ensures
            r.wf(),
            !r.inline(),
            r@ == block@.skip(1),
    {
        Repr { tag: 0, data: [0; INLINE_LEN], heap: block }
    }

    /// Returns `true` if the bytes are stored in place rather than in a heap block of their own.
    pub(crate) fn is_inline(&self) -> (r: bool)
        ensures
            r == self.inline(),
    {
        let tag: u8 = self.tag;
        assert((tag & 1 == 1) == (tag % 2 == 1)) by (bit_vector);
        tag & 1 == 1
    }

    /// Copies the bytes stored in place into a new instance.
    pub(crate) fn copy_inline(&self) -> (r: Self)
        requires
            self.wf(),
            self.inline(),
        ensures
            r.wf(),
            r.inline(),
            r@ == self@,
    {
        Repr { tag: self.tag, data: self.data, heap: Vec::new() }
    }

    /// Returns the bytes stored in place.
    pub(crate) fn inline_bytes(&self) -> (r: &[u8])
        requires
            self.wf(),
            self.inline(),
        ensures
            r@ == self@,
    {
        let len: usize = self.inline_len();
        &self.data[0..len]
    }

    /// Number of bytes stored in place.
    fn inline_len(&self) -> (r: usize)
        requires
            self.wf(),
            self.inline(),
        ensures
            r == self.tag / 2,
            r <= INLINE_LEN,
    {
        let tag: u8 = self.tag;
        assert(tag >> 1 == tag / 2) by (bit_vector);
        (tag >> 1) as usize
    }

    /// Returns the bytes of the heap block.
    pub(crate) fn heap_bytes(&self) -> (r: &[u8])
        requires
            self.wf(),
            !self.inline(),
        ensures
            r@ == self@,
    {
        let len: usize = self.heap[0] as usize;
        &self.heap.as_slice()[1..len + 1]
    }

    /// Same as `inline_bytes`, but mutable.
    pub(crate) fn inline_bytes_mut(&mut self) -> (r: &mut [u8])
        requires
            old(self).wf(),
            old(self).inline(),
        ensures
            r@ == old(self)@,
            final(r)@.len() == r@.len() ==> {
                &&& final(self).wf()
                &&& final(self).inline()
                &&& final(self)@ == final(r)@
            },
    {
        let len: usize = self.inline_len();
        let all: &mut [u8] = &mut self.data;
        all.split_at_mut(len).0
    }

    /// Same as `heap_bytes`, but mutable.
    pub(crate) fn heap_bytes_mut(&mut self) -> (r: &mut [u8])
        requires
            old(self).wf(),
            !old(self).inline(),
        ensures
            r@ == old(self)@,
            final(r)@.len() == r@.len() ==> {
                &&& final(self).wf()
                &&& !final(self).inline()
                &&& final(self)@ == final(r)@
            },
    {
        self.heap.as_mut_slice().split_at_mut(1).1
    }
}

} // verus!
