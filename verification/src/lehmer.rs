//! The arithmetic of the generator, as mathematics.
//!
//! The generator is the Lehmer recurrence `s' = 16807 * s mod (2^31 - 1)`.
//! It is computed by Carta's method, which never forms a remainder: the two
//! partial products of the seed's halves are folded at bit 31, and the
//! modulus is taken off once where the fold went past it.

use vstd::prelude::*;

verus! {

use vstd::arithmetic::div_mod::{lemma_mod_multiples_vanish, lemma_mul_mod_noop_right, lemma_small_mod};

/// The multiplier of the recurrence, 7^5.
pub const MULTIPLIER: u64 = 16807;

/// The modulus of the recurrence, the Mersenne prime 2^31 - 1.
pub const MODULUS: u64 = 0x7FFF_FFFF;

/// The inverse of the multiplier modulo the modulus.
pub const MULTIPLIER_INVERSE: u64 = 1407677000;

/// The number of nonzero residues of the modulus.
pub const PERIOD: u64 = 0x7FFF_FFFE;

/// The state that a raw seed stands for: zero becomes one.
pub open spec fn sanitized(raw: nat) -> nat {
    if raw == 0 {
        1
    } else {
        raw
    }
}

/// Whether `s` is a state of the recurrence proper: a nonzero residue.
pub open spec fn is_residue(s: nat) -> bool {
    1 <= s < MODULUS
}

/// One step of the Lehmer recurrence.
pub open spec fn lehmer_step(s: nat) -> nat {
    ((MULTIPLIER * s) % (MODULUS as int)) as nat
}

/// Carta's fold of the product `MULTIPLIER * s`. With `lo` and `hi` the
/// products of the multiplier with the low 16 bits of `s` and with the rest,
/// the whole product is `2^31 * (hi / 2^15) + 2^16 * (hi % 2^15) + lo`. The
/// fold is the same sum with one in place of `2^31`, which leaves it what it is
/// modulo `2^31 - 1`.
///
/// The definition is opaque, to keep it out of proofs that stay on the
/// residues, where a step is a plain remainder; `reveal` it where the value at
/// another state is wanted.
#[verifier::opaque]
pub open spec fn carta_fold(s: nat) -> nat {
    let lo = MULTIPLIER as nat * (s % 0x1_0000);
    let hi = MULTIPLIER as nat * (s / 0x1_0000);
    lo + (hi % 0x8000) * 0x1_0000 + hi / 0x8000
}

/// The state that follows `s`: the fold, less the modulus where the fold is
/// above it. This is what the generator computes from every state, a nonzero
/// residue or not.
pub open spec fn advance(s: nat) -> nat {
    let folded = carta_fold(s);
    if folded > MODULUS {
        (folded - MODULUS) as nat
    } else {
        folded
    }
}

/// The state that the nonzero residue `y` follows: the step taken back, with
/// the inverse of the multiplier.
pub open spec fn predecessor(y: nat) -> nat {
    ((MULTIPLIER_INVERSE * y) % (MODULUS as int)) as nat
}

/// The state that `k` steps lead to from the state `s`.
pub open spec fn state_after(s: nat, k: nat) -> nat
    decreases k,
{
    if k == 0 {
        s
    } else {
        advance(state_after(s, (k - 1) as nat))
    }
}

/// The fold is the product less a multiple of the modulus, so the two are
/// congruent, whatever `s` is.
pub proof fn lemma_fold_is_product_less_multiple(s: nat)
    ensures
        carta_fold(s) == MULTIPLIER * s - MODULUS * ((MULTIPLIER * (s / 0x1_0000)) / 0x8000),
        carta_fold(s) % (MODULUS as nat) == (MULTIPLIER * s) % (MODULUS as int),
{
    reveal(carta_fold);
    let hi = MULTIPLIER as nat * (s / 0x1_0000);
    let q = hi / 0x8000;
    assert(carta_fold(s) == MULTIPLIER * s - MODULUS * q);
    lemma_mod_multiples_vanish(-(q as int), MULTIPLIER * s, MODULUS as int);
}

/// From a state that is not zero the next state is not zero, whether the
/// state is a residue or not.
pub proof fn lemma_advance_is_nonzero(s: nat)
    requires
        s != 0,
    ensures
        advance(s) != 0,
{
    reveal(carta_fold);
    if carta_fold(s) == 0 {
        // Every term of the fold is then zero, and with them both halves of `s`.
        let hi = MULTIPLIER as nat * (s / 0x1_0000);
        assert(s % 0x1_0000 == 0);
        assert(hi % 0x8000 == 0 && hi / 0x8000 == 0);
        assert(s / 0x1_0000 == 0);
    }
}

/// Multiplying by the multiplier and by its inverse, each time reduced,
/// gives back a reduced number, whichever of the two comes first.
proof fn lemma_inverse_cancels(s: int)
    requires
        0 <= s < MODULUS,
    ensures
        (MULTIPLIER_INVERSE * ((MULTIPLIER * s) % (MODULUS as int))) % (MODULUS as int) == s,
        (MULTIPLIER * ((MULTIPLIER_INVERSE * s) % (MODULUS as int))) % (MODULUS as int) == s,
{
    let a = MULTIPLIER as int;
    let b = MULTIPLIER_INVERSE as int;
    let m = MODULUS as int;
    assert(b * a == 1 + 11017 * m);
    lemma_mul_mod_noop_right(b, a * s, m);
    lemma_mul_mod_noop_right(a, b * s, m);
    assert(b * (a * s) == s + m * (11017 * s) && a * (b * s) == s + m * (11017 * s))
        by (nonlinear_arith)
        requires
            b * a == 1 + 11017 * m,
    ;
    lemma_mod_multiples_vanish(11017 * s, s, m);
    lemma_small_mod(s as nat, m as nat);
}

/// On the nonzero residues Carta's method computes the Lehmer recurrence,
/// and stays among them.
pub proof fn lemma_advance_is_lehmer(s: nat)
    requires
        is_residue(s),
    ensures
        advance(s) == lehmer_step(s),
        is_residue(advance(s)),
{
    lemma_fold_is_product_less_multiple(s);
    // The step is not zero: the inverse of the multiplier takes it back to
    // `s`, and would take zero to zero.
    lemma_inverse_cancels(s as int);
    assert(lehmer_step(s) != 0);
    // The fold is below twice the modulus, so taking the modulus off once
    // where the fold is above it leaves the remainder.
    let folded = carta_fold(s);
    assert(folded < 2 * MODULUS) by {
        reveal(carta_fold);
    }
    if folded > MODULUS {
        lemma_mod_multiples_vanish(-1, folded as int, MODULUS as int);
    }
}

/// The step back undoes the step, and the step undoes the step back: on the
/// nonzero residues the two are inverse to each other, so the step is a
/// bijection of them.
pub proof fn lemma_advance_is_bijection(s: nat)
    requires
        is_residue(s),
    ensures
        is_residue(advance(s)),
        predecessor(advance(s)) == s,
        is_residue(predecessor(s)),
        advance(predecessor(s)) == s,
{
    lemma_advance_is_lehmer(s);
    lemma_inverse_cancels(s as int);
    assert(predecessor(s) != 0);
    lemma_advance_is_lehmer(predecessor(s));
}

/// Two nonzero residues with one successor are one.
pub proof fn lemma_advance_is_injective(a: nat, b: nat)
    requires
        is_residue(a),
        is_residue(b),
        advance(a) == advance(b),
    ensures
        a == b,
{
    lemma_advance_is_bijection(a);
    lemma_advance_is_bijection(b);
}

/// Steps from a nonzero residue lead to nonzero residues.
pub proof fn lemma_state_after_is_residue(s: nat, k: nat)
    requires
        is_residue(s),
    ensures
        is_residue(state_after(s, k)),
    decreases k,
{
    if k > 0 {
        lemma_state_after_is_residue(s, (k - 1) as nat);
        lemma_advance_is_lehmer(state_after(s, (k - 1) as nat));
    }
}

/// Steps add up: `i` of them and then `j` more are `i + j` of them.
pub proof fn lemma_state_after_add(s: nat, i: nat, j: nat)
    ensures
        state_after(s, i + j) == state_after(state_after(s, i), j),
    decreases j,
{
    if j > 0 {
        lemma_state_after_add(s, i, (j - 1) as nat);
    }
}

} // verus!
