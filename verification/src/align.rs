//! Alignment arithmetic on addresses, for alignments that are powers of two.

use vstd::arithmetic::div_mod::{lemma_fundamental_div_mod, lemma_mod_multiples_basic};
use vstd::arithmetic::power2::{
    lemma2_to64, lemma_pow2_pos, lemma_pow2_strictly_increases, lemma_pow2_unfold, pow2,
};
use vstd::bits::{lemma_usize_low_bits_mask_is_mod, low_bits_mask};
use vstd::prelude::*;

verus! {

/// `a` is `2^k` for some natural `k`.
pub open spec fn is_pow2(a: int) -> bool {
    exists|k: nat| a == #[trigger] pow2(k)
}

/// The greatest multiple of `a` that is at most `x` (for `a > 0`).
pub open spec fn round_down(x: int, a: int) -> int {
    x - x % a
}

/// The least multiple of `a` that is at least `x` (for `a > 0`).
pub open spec fn round_up(x: int, a: int) -> int {
    if x % a == 0 {
        x
    } else {
        x - x % a + a
    }
}

/// An exponent of the power of two `a`.
pub open spec fn log2_of(a: int) -> nat {
    choose|k: nat| a == #[trigger] pow2(k)
}

/// A power of two that fits in `usize` is positive and its exponent is below
/// the width of `usize`.
pub proof fn lemma_pow2_fits(a: usize)
    requires
        is_pow2(a as int),
    ensures
        a >= 1,
        log2_of(a as int) < usize::BITS,
        a == pow2(log2_of(a as int)),
{
    let k = log2_of(a as int);
    lemma_pow2_pos(k);
    lemma2_to64();
    if k >= usize::BITS {
        if k > usize::BITS {
            lemma_pow2_strictly_increases(usize::BITS as nat, k);
        }
        assert(pow2(usize::BITS as nat) > usize::MAX);
    }
}

/// Clearing the bits below a power of two rounds down to a multiple of it.
pub proof fn lemma_mask_rounds_down(x: usize, a: usize)
    requires
        is_pow2(a as int),
    ensures
        a >= 1,
        x & !((a - 1) as usize) == round_down(x as int, a as int),
{
    lemma_pow2_fits(a);
    let k = log2_of(a as int);
    let m: usize = (a - 1) as usize;
    assert(m == low_bits_mask(k) as usize);
    lemma_usize_low_bits_mask_is_mod(x, k);
    assert(x & m == x % a);
    assert(x & !m == x - (x & m)) by (bit_vector);
}

/// `round_down(x, a)` is a multiple of `a`, at most `x` and less than `a`
/// below it.
pub proof fn lemma_round_down_bounds(x: int, a: int)
    requires
        a > 0,
    ensures
        round_down(x, a) % a == 0,
        round_down(x, a) == (x / a) * a,
        x - a < round_down(x, a) <= x,
{
    let d = round_down(x, a);
    lemma_fundamental_div_mod(x, a);
    lemma_mod_multiples_basic(x / a, a);
    assert(d == (x / a) * a) by (nonlinear_arith)
        requires
            d == a * (x / a),
    ;
}

/// No multiple of `a` lies above `round_down(x, a)` and at most at `x`.
pub proof fn lemma_round_down_greatest(x: int, a: int, y: int)
    requires
        a > 0,
        y % a == 0,
        y <= x,
    ensures
        y <= round_down(x, a),
{
    let d = round_down(x, a);
    lemma_fundamental_div_mod(x, a);
    lemma_fundamental_div_mod(y, a);
    if y > d {
        assert(y / a > x / a) by (nonlinear_arith)
            requires
                a > 0,
                a * (y / a) > a * (x / a),
        ;
        assert(a * (y / a) >= a * (x / a) + a) by (nonlinear_arith)
            requires
                a > 0,
                y / a >= x / a + 1,
        ;
    }
}

/// `round_up(x, a)` is a multiple of `a`, at least `x` and less than `a`
/// above it.
pub proof fn lemma_round_up_bounds(x: int, a: int)
    requires
        a > 0,
    ensures
        round_up(x, a) % a == 0,
        x <= round_up(x, a) < x + a,
{
    let u = round_up(x, a);
    if x % a != 0 {
        lemma_fundamental_div_mod(x, a);
        lemma_mod_multiples_basic(x / a + 1, a);
        assert(u == (x / a + 1) * a) by (nonlinear_arith)
            requires
                u == a * (x / a) + a,
        ;
    }
}

/// No multiple of `a` lies below `round_up(x, a)` and at least at `x`.
pub proof fn lemma_round_up_least(x: int, a: int, y: int)
    requires
        a > 0,
        y % a == 0,
        y >= x,
    ensures
        round_up(x, a) <= y,
{
    let u = round_up(x, a);
    if x % a != 0 {
        lemma_fundamental_div_mod(x, a);
        lemma_fundamental_div_mod(y, a);
        if y < u {
            assert(y / a > x / a) by (nonlinear_arith)
                requires
                    a > 0,
                    a * (y / a) > a * (x / a),
            ;
            assert(a * (y / a) >= a * (x / a) + a) by (nonlinear_arith)
                requires
                    a > 0,
                    y / a >= x / a + 1,
            ;
        }
    }
}

/// Adding a power of two less one and clearing the bits below it rounds up
/// to a multiple of it, as long as the sum fits in `usize`.
pub proof fn lemma_mask_rounds_up(x: usize, a: usize)
    requires
        is_pow2(a as int),
        x + a - 1 <= usize::MAX,
    ensures
        a >= 1,
        ((x + a - 1) as usize) & !((a - 1) as usize) == round_up(x as int, a as int),
{
    lemma_pow2_fits(a);
    let y: usize = (x + a - 1) as usize;
    lemma_mask_rounds_down(y, a);
    let d = round_down(y as int, a as int);
    let u = round_up(x as int, a as int);
    lemma_round_up_bounds(x as int, a as int);
    lemma_round_down_bounds(y as int, a as int);
    lemma_round_down_greatest(y as int, a as int, u);
    lemma_fundamental_div_mod(d, a as int);
    lemma_fundamental_div_mod(u, a as int);
    assert(d / (a as int) <= u / (a as int)) by (nonlinear_arith)
        requires
            a > 0,
            a * (d / (a as int)) < a * (u / (a as int)) + a,
    ;
    assert(a * (d / (a as int)) <= a * (u / (a as int))) by (nonlinear_arith)
        requires
            a > 0,
            d / (a as int) <= u / (a as int),
    ;
}

/// Tells whether `a` is a power of two.
pub fn is_power_of_two(a: usize) -> (r: bool)
    ensures
        r == is_pow2(a as int),
{
    if a == 0 {
        proof {
            assert forall|k: nat| a != #[trigger] pow2(k) by {
                lemma_pow2_pos(k);
            }
        }
        return false;
    }
    let mut p: usize = 1;
    let ghost mut k: nat = 0;
    proof {
        lemma2_to64();
    }
    while p < a && p <= usize::MAX / 2
        invariant
            a >= 1,
            p >= 1,
            p == pow2(k),
            forall|j: nat| j < k ==> #[trigger] pow2(j) < a,
        decreases usize::MAX - p,
    {
        proof {
            lemma_pow2_unfold(k + 1);
            k = k + 1;
        }
        p = p * 2;
    }
    proof {
        if p != a {
            assert forall|m: nat| a != #[trigger] pow2(m) by {
                if m > k {
                    lemma_pow2_unfold(k + 1);
                    if m > k + 1 {
                        lemma_pow2_strictly_increases(k + 1, m);
                    }
                }
            }
        }
    }
    p == a
}

/// Rounds `x` down to a multiple of the power of two `align`.
pub fn align_down(x: usize, align: usize) -> (r: usize)
    requires
        is_pow2(align as int),
    ensures
        r == round_down(x as int, align as int),
{
    proof {
        lemma_mask_rounds_down(x, align);
    }
    x & !(align - 1)
}

/// Rounds `x` up to a multiple of the power of two `align`, or reports that
/// the multiple does not fit in `usize`.
pub fn checked_align_up(x: usize, align: usize) -> (r: Option<usize>)
    requires
        is_pow2(align as int),
    ensures
        r == if round_up(x as int, align as int) <= usize::MAX {
            Some(round_up(x as int, align as int) as usize)
        } else {
            None
        },
{
    let down: usize = align_down(x, align);
    if down == x {
        Some(x)
    } else {
        down.checked_add(align)
    }
}

} // verus!
