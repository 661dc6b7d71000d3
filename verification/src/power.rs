//! The powers of the multiplier, modulo the modulus. `k` steps of the
//! generator multiply its state by the `k`-th of them.

use vstd::prelude::*;

verus! {

use crate::lehmer::{
    is_residue, lehmer_step, lemma_advance_is_lehmer, lemma_state_after_add,
    lemma_state_after_is_residue, state_after, MODULUS, MULTIPLIER,
};
use vstd::arithmetic::div_mod::{lemma_mul_mod_noop_left, lemma_mul_mod_noop_right, lemma_small_mod};

/// The product of two numbers, reduced by the modulus.
#[verifier::opaque]
pub open spec fn mul_mod(x: nat, y: nat) -> nat {
    (x * y) % (MODULUS as nat)
}

/// The `k`-th power of the multiplier, reduced by the modulus: the state that
/// `k` steps lead to from one.
#[verifier::opaque]
pub open spec fn power(k: nat) -> nat {
    state_after(1, k)
}

/// One is neutral under the reduced product with a reduced number.
pub proof fn lemma_mul_mod_one(x: nat)
    requires
        x < MODULUS,
    ensures
        mul_mod(x, 1) == x,
        mul_mod(1, x) == x,
{
    reveal(mul_mod);
    lemma_small_mod(x, MODULUS as nat);
}

/// The reduced product may be taken in either order and either grouping.
pub proof fn lemma_mul_mod_laws(x: nat, y: nat, z: nat)
    ensures
        mul_mod(x, y) == mul_mod(y, x),
        mul_mod(x, mul_mod(y, z)) == mul_mod(mul_mod(x, y), z),
        mul_mod(x, y) < MODULUS,
{
    reveal(mul_mod);
    let m = MODULUS as int;
    assert(x * y == y * x) by (nonlinear_arith);
    assert(x * (y * z) == (x * y) * z) by (nonlinear_arith);
    lemma_mul_mod_noop_right(x as int, (y * z) as int, m);
    lemma_mul_mod_noop_left((x * y) as int, z as int, m);
}

/// A step is a reduced product with the multiplier.
proof fn lemma_step_is_mul_mod(s: nat)
    ensures
        lehmer_step(s) == mul_mod(MULTIPLIER as nat, s),
{
    reveal(mul_mod);
}

/// `k` steps multiply the state by the `k`-th power of the multiplier.
pub proof fn lemma_state_after_scales(s: nat, k: nat)
    requires
        is_residue(s),
    ensures
        state_after(s, k) == mul_mod(s, power(k)),
    decreases k,
{
    reveal(power);
    if k == 0 {
        lemma_mul_mod_one(s);
    } else {
        let a = MULTIPLIER as nat;
        let before = state_after(s, (k - 1) as nat);
        let earlier = state_after(1, (k - 1) as nat);
        lemma_state_after_scales(s, (k - 1) as nat);
        lemma_state_after_is_residue(s, (k - 1) as nat);
        lemma_state_after_is_residue(1, (k - 1) as nat);
        lemma_advance_is_lehmer(before);
        lemma_advance_is_lehmer(earlier);
        lemma_step_is_mul_mod(before);
        lemma_step_is_mul_mod(earlier);
        assert(state_after(s, k) == mul_mod(a, mul_mod(s, earlier)));
        assert(state_after(1, k) == mul_mod(a, earlier));
        // a * (s * earlier) == (a * s) * earlier == (s * a) * earlier == s * (a * earlier)
        lemma_mul_mod_laws(a, s, earlier);
        lemma_mul_mod_laws(s, a, earlier);
    }
}

/// The powers of the multiplier are nonzero residues.
pub proof fn lemma_power_is_residue(k: nat)
    ensures
        is_residue(power(k)),
{
    reveal(power);
    lemma_state_after_is_residue(1, k);
}

/// The powers of the multiplier multiply as their exponents add.
pub proof fn lemma_power_add(i: nat, j: nat)
    ensures
        power(i + j) == mul_mod(power(i), power(j)),
{
    reveal(power);
    lemma_state_after_add(1, i, j);
    lemma_state_after_is_residue(1, i);
    lemma_state_after_scales(state_after(1, i), j);
}

/// The power at zero is one, and the power at one is the multiplier.
pub proof fn lemma_power_base()
    ensures
        power(0) == 1,
        power(1) == MULTIPLIER,
{
    reveal(power);
    reveal_with_fuel(state_after, 2);
    lemma_advance_is_lehmer(1);
}

} // verus!
