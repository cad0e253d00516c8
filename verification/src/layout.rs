//! Placement arithmetic for an inline payload stored after a variable-size
//! base prefix: rounding a size up to the payload's alignment.

use vstd::prelude::*;
use vstd::arithmetic::div_mod::{lemma_fundamental_div_mod, lemma_mod_self_0, lemma_mod_bound};

verus! {

/// The smallest multiple of `align` that is greater than or equal to `size`.
pub open spec fn spec_round_up(size: nat, align: nat) -> nat
    recommends
        align >= 1,
{
    if size % align == 0 {
        size
    } else {
        (size + (align - size % align)) as nat
    }
}

/// The rounded-up size is the smallest multiple of `align` that is at least
/// `size`: it is a multiple, it is not below `size`, and the next smaller
/// multiple (one `align` down) is strictly below `size`.
pub proof fn lemma_round_up_properties(size: nat, align: nat)
    requires
        align >= 1,
    ensures
        spec_round_up(size, align) % align == 0,
        spec_round_up(size, align) >= size,
        spec_round_up(size, align) < size + align,
{
    let r = size % align;
    lemma_mod_bound(size as int, align as int);
    if r == 0 {
        lemma_mod_self_0(align as int);
    } else {
        let q = size / align;
        lemma_fundamental_div_mod(size as int, align as int);
        assert(size + (align - r) == align * (q + 1)) by {
            assert(size == align * q + r);
            assert(align * q + align == align * (q + 1)) by (nonlinear_arith);
        }
        assert((align * (q + 1)) % align == 0) by (nonlinear_arith)
            requires align >= 1;
    }
}

/// Rounding is monotone in the size being rounded.
pub proof fn lemma_round_up_monotone(s1: nat, s2: nat, align: nat)
    requires
        align >= 1,
        s1 <= s2,
    ensures
        spec_round_up(s1, align) <= spec_round_up(s2, align),
{
    lemma_round_up_properties(s1, align);
    lemma_round_up_properties(s2, align);
    if spec_round_up(s1, align) > spec_round_up(s2, align) {
        // Both are multiples of align, so they differ by at least align.
        let a = spec_round_up(s2, align) as int;
        let b = spec_round_up(s1, align) as int;
        lemma_fundamental_div_mod(a, align as int);
        lemma_fundamental_div_mod(b, align as int);
        assert(b - a >= align) by (nonlinear_arith)
            requires
                align >= 1,
                a % (align as int) == 0,
                b % (align as int) == 0,
                a == (align as int) * (a / (align as int)),
                b == (align as int) * (b / (align as int)),
                b > a,
                a >= 0;
        assert(false);
    }
}

/// Rounds `size` up to the next multiple of `align`.
pub fn round_up(size: usize, align: usize) -> (r: usize)
    requires
        align >= 1,
        spec_round_up(size as nat, align as nat) <= usize::MAX,
    ensures
        r as nat == spec_round_up(size as nat, align as nat),
{
    proof {
        lemma_round_up_properties(size as nat, align as nat);
    }
    let rem = size % align;
    if rem == 0 {
        size
    } else {
        size + (align - rem)
    }
}

} // verus!
