//! Equality, order and hash of human-readable parts, none of which regards case.

use core::cmp::Ordering;

use vstd::prelude::*;

use super::ascii;
use super::std_items;
use super::std_items::HashItem;
use super::Hrp;

verus! {

/// The order of byte strings: that of the first bytes that differ, or the shorter one first.
pub open spec fn byte_order(a: Seq<u8>, b: Seq<u8>) -> Ordering
    decreases a.len(),
{
    if a.len() == 0 && b.len() == 0 {
        Ordering::Equal
    } else if a.len() == 0 {
        Ordering::Less
    } else if b.len() == 0 {
        Ordering::Greater
    } else if a[0] < b[0] {
        Ordering::Less
    } else if a[0] > b[0] {
        Ordering::Greater
    } else {
        byte_order(a.drop_first(), b.drop_first())
    }
}

/// What `==` says of two human-readable parts.
pub open spec fn equal(a: Hrp, b: Hrp) -> bool {
    ascii::lower(a@) == ascii::lower(b@)
}

/// What `cmp`, `partial_cmp`, `<` and their like say of two human-readable parts.
pub open spec fn order(a: Hrp, b: Hrp) -> Ordering {
    byte_order(ascii::lower(a@), ascii::lower(b@))
}

/// Case insensitive comparison.
impl PartialEq for Hrp {
    fn eq(&self, other: &Self) -> (r: bool) {
        let mut a = self.lowercase_byte_iter();
        let mut b = other.lowercase_byte_iter();
        let n: usize = a.len();
        if n != b.len() {
            return false;
        }
        let mut i: usize = 0;
        while i < n
            invariant
                i <= n,
                n == ascii::lower(self@).len(),
                n == ascii::lower(other@).len(),
                a.rest() == ascii::lower(self@).skip(i as int),
                b.rest() == ascii::lower(other@).skip(i as int),
                ascii::lower(self@).take(i as int) == ascii::lower(other@).take(i as int),
            decreases n - i,
        {
            let x: Option<u8> = a.next();
            let y: Option<u8> = b.next();
            if x != y {
                return false;
            }
            proof {
                let s = ascii::lower(self@);
                let t = ascii::lower(other@);
                assert(s.take(i + 1) =~= s.take(i as int).push(s[i as int]));
                assert(t.take(i + 1) =~= t.take(i as int).push(t[i as int]));
                assert(s.skip(i as int).drop_first() =~= s.skip(i + 1));
                assert(t.skip(i as int).drop_first() =~= t.skip(i + 1));
            }
            i = i + 1;
        }
        assert(ascii::lower(self@).take(n as int) =~= ascii::lower(self@));
        assert(ascii::lower(other@).take(n as int) =~= ascii::lower(other@));
        true
    }
}

impl vstd::std_specs::cmp::PartialEqSpecImpl for Hrp {
    open spec fn obeys_eq_spec() -> bool {
        true
    }

    open spec fn eq_spec(&self, other: &Self) -> bool {
        equal(*self, *other)
    }
}

impl Eq for Hrp {

}

impl Hrp {
    /// Case insensitive comparison.
    pub fn cmp(&self, other: &Self) -> (r: Ordering)
        ensures
            r == order(*self, *other),
    {
        let mut a = self.lowercase_byte_iter();
        let mut b = other.lowercase_byte_iter();
        loop
            invariant
                order(*self, *other) == byte_order(a.rest(), b.rest()),
            decreases a.rest().len(),
        {
            match (a.next(), b.next()) {
                (None, None) => {
                    return Ordering::Equal;
                },
                (None, Some(_)) => {
                    return Ordering::Less;
                },
                (Some(_), None) => {
                    return Ordering::Greater;
                },
                (Some(x), Some(y)) => {
                    if x < y {
                        return Ordering::Less;
                    }
                    if x > y {
                        return Ordering::Greater;
                    }
                },
            }
        }
    }
}

/// Case insensitive comparison.
impl PartialOrd for Hrp {
    fn partial_cmp(&self, other: &Self) -> (r: Option<Ordering>) {
        Some(self.cmp(other))
    }
}

impl vstd::std_specs::cmp::PartialOrdSpecImpl for Hrp {
    open spec fn obeys_partial_cmp_spec() -> bool {
        true
    }

    open spec fn partial_cmp_spec(&self, other: &Self) -> Option<Ordering> {
        Some(order(*self, *other))
    }
}

/// What a human-readable part feeds to a hasher, in order: its length, then its bytes in lower case.
pub open spec fn hash_items(bytes: Seq<u8>) -> Seq<HashItem> {
    seq![HashItem::Len(bytes.len() as usize)] + ascii::lower(bytes).map_values(
        |b: u8| HashItem::Byte(b),
    )
}

/// Feeds the length and the bytes in lower case to a hasher, without regard to case.
impl core::hash::Hash for Hrp {
    fn hash<H: core::hash::Hasher>(&self, h: &mut H)
        ensures
            std_items::fed_all(*old(h), hash_items(self@), *final(h)),
    {
        let ghost before = *h;
        let ghost items = hash_items(self@);
        assert(std_items::fed_all(before, items.take(0), before));
        let n: usize = self.len();
        std_items::hash_usize(h, n);
        assert(items.take(1).drop_last() =~= items.take(0));
        assert(items.take(1).last() == HashItem::Len(n));
        assert(std_items::fed_all(before, items.take(1), *h));
        for b in it: self.lowercase_byte_iter()
            invariant
                it.seq() == ascii::lower(self@),
                items == hash_items(self@),
                std_items::fed_all(before, items.take(it.index() + 1), *h),
        {
            std_items::hash_u8(h, b);
            assert(items.take(it.index() + 2).drop_last() =~= items.take(it.index() + 1));
            assert(items.take(it.index() + 2).last() == HashItem::Byte(b));
        }
        assert(items.take(items.len() as int) =~= items);
    }
}

} // verus!
