//! Modular-arithmetic facts shared by the width-specific sequence modules.
//!
//! Every width module reasons about wrapping arithmetic as arithmetic modulo
//! `2^bits`; these lemmas carry the width as an ordinary parameter `n` so that
//! one proof serves all widths.

use vstd::arithmetic::div_mod::{
    lemma_add_mod_noop, lemma_mod_add_multiples_vanish, lemma_mul_mod_noop_left,
    lemma_mul_mod_noop_right, lemma_small_mod, lemma_sub_mod_noop,
};
use vstd::arithmetic::mul::lemma_mul_is_associative;
use vstd::prelude::*;

verus! {

/// Multiplying by `a` and then by `b` modulo `n` is the identity on `[0, n)`
/// whenever `a * b == 1 (mod n)`, i.e. a multiplier with a known modular
/// inverse can always be cancelled.
pub proof fn lemma_mul_inverse_cancels(x: int, a: int, b: int, n: int)
    requires
        1 < n,
        0 <= x < n,
        (a * b) % n == 1,
    ensures
        (((x * a) % n) * b) % n == x,
{
    lemma_mul_mod_noop_left(x * a, b, n);
    assert((((x * a) % n) * b) % n == ((x * a) * b) % n);
    lemma_mul_is_associative(x, a, b);
    assert(((x * a) * b) % n == (x * (a * b)) % n);
    lemma_mul_mod_noop_right(x, a * b, n);
    assert((x * (a * b)) % n == (x * ((a * b) % n)) % n);
    lemma_small_mod(x as nat, n as nat);
}

/// Closed form for the residue of the sum of two residues: it either stays
/// below the modulus or wraps around exactly once.
pub proof fn lemma_mod_sum_form(s: int, i: int, n: int)
    requires
        1 < n,
        0 <= s < n,
        0 <= i < n,
    ensures
        (s + i) % n == if s + i < n {
            s + i
        } else {
            s + i - n
        },
{
    if s + i < n {
        lemma_small_mod((s + i) as nat, n as nat);
    } else {
        lemma_mod_add_multiples_vanish(s + i - n, n);
        lemma_small_mod((s + i - n) as nat, n as nat);
    }
}

/// Taking the residue first does not change where one more step lands.
pub proof fn lemma_mod_succ(d: int, n: int)
    requires
        1 < n,
    ensures
        ((d % n) + 1) % n == (d + 1) % n,
{
    lemma_add_mod_noop(d, 1, n);
    lemma_small_mod(1nat, n as nat);
}

/// Closed form for the residue of one step back from a residue: it either
/// stays at or above zero or wraps around to the top.
pub proof fn lemma_mod_diff_form(s: int, n: int)
    requires
        1 < n,
        0 <= s < n,
    ensures
        (s - 1) % n == if s >= 1 {
            s - 1
        } else {
            n - 1
        },
{
    if s >= 1 {
        lemma_small_mod((s - 1) as nat, n as nat);
    } else {
        lemma_mod_add_multiples_vanish(-1, n);
        lemma_small_mod((n - 1) as nat, n as nat);
    }
}

/// Taking the residue first does not change where one step back lands.
pub proof fn lemma_mod_pred(d: int, n: int)
    requires
        1 < n,
    ensures
        ((d % n) - 1) % n == (d - 1) % n,
{
    lemma_sub_mod_noop(d, 1, n);
    lemma_small_mod(1nat, n as nat);
}

} // verus!
