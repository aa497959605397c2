//! Numbers as text.

use vstd::prelude::*;

verus! {

/// The digit of value `d`: `0` to `9`, then lower case letters.
pub open spec fn digit(d: nat) -> char {
    if d < 10 {
        (48 + d) as char
    } else {
        (87 + d) as char
    }
}

/// The numeral of `n` in the given base, without leading zeros.
pub open spec fn numeral(n: nat, base: nat) -> Seq<char>
    decreases n,
{
    if base < 2 || n < base {
        seq![digit(n)]
    } else {
        proof {
            vstd::arithmetic::div_mod::lemma_div_decreases(n as int, base as int);
        }
        numeral(n / base, base).push(digit(n % base))
    }
}

/// Appends the numeral of `n` in the given base, decimal or hexadecimal.
pub(crate) fn push_numeral(s: &mut String, n: usize, base: usize)
    requires
        base == 10 || base == 16,
    ensures
        final(s)@ == old(s)@ + numeral(n as nat, base as nat),
    decreases n,
{
    let d: u8 = (n % base) as u8;
    if n >= base {
        push_numeral(s, n / base, base);
    }
    s.push(
        if d < 10 {
            (48 + d) as char
        } else {
            (87 + d) as char
        },
    );
    assert(s@ =~= old(s)@ + numeral(n as nat, base as nat));
}

/// The numeral of `n` in the given base, decimal or hexadecimal.
pub(crate) fn to_numeral(n: usize, base: usize) -> (r: String)
    requires
        base == 10 || base == 16,
    ensures
        r@ == numeral(n as nat, base as nat),
{
    let mut r: String = String::new();
    push_numeral(&mut r, n, base);
    assert(r@ =~= numeral(n as nat, base as nat));
    r
}

} // verus!
