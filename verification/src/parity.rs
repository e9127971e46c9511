//! Population-count parity: the DCF77 frame protects each of its three bit
//! groups with one even-parity bit.

use vstd::prelude::*;

verus! {

/// Whether `v` has an even number of set bits.
pub open spec fn even_pop(v: u64) -> bool
    decreases v,
{
    if v == 0 {
        true
    } else {
        (v % 2 == 0) == even_pop(v / 2)
    }
}

/// Whether the number of set bits in `v` is odd, by folding the bits
/// together one at a time.
pub fn odd_parity(v: u64) -> (odd: bool)
    ensures
        odd == !even_pop(v),
{
    let mut rest: u64 = v;
    let mut odd: bool = false;
    while rest != 0
        invariant
            even_pop(v) == (even_pop(rest) != odd),
        decreases rest,
    {
        if rest % 2 == 1 {
            odd = !odd;
        }
        rest = rest / 2;
    }
    odd
}

/// Placing one extra set bit above all bits of `v` flips the parity of the
/// population count: `p` must be a power of two larger than `v`.
pub proof fn lemma_even_pop_top_bit(v: u64, p: u64)
    requires
        is_bit(p),
        v < p,
        v + p <= u64::MAX,
    ensures
        even_pop((v + p) as u64) == !even_pop(v),
    decreases p,
{
    if p == 1 {
        assert(v == 0);
        assert(even_pop(1) == !even_pop(0));
    } else {
        let s = (v + p) as u64;
        assert(p % 2 == 0);
        vstd::arithmetic::div_mod::lemma_fundamental_div_mod(v as int, 2);
        vstd::arithmetic::div_mod::lemma_fundamental_div_mod(p as int, 2);
        vstd::arithmetic::div_mod::lemma_mod_bound(v as int, 2);
        vstd::arithmetic::div_mod::lemma_fundamental_div_mod_converse(
            s as int,
            2,
            v as int / 2 + p as int / 2,
            v as int % 2,
        );
        assert(s % 2 == v % 2 && s / 2 == v / 2 + p / 2);
        lemma_even_pop_top_bit(v / 2, p / 2);
        assert(even_pop(s) == ((s % 2 == 0) == even_pop(s / 2)));
    }
}

/// Whether `p` is a single set bit, that is a power of two.
pub open spec fn is_bit(p: u64) -> bool
    decreases p,
{
    if p == 0 {
        false
    } else if p == 1 {
        true
    } else {
        p % 2 == 0 && is_bit(p / 2)
    }
}

} // verus!
