//! The cycle of the generator: from any nonzero residue the states run
//! through all the nonzero residues, once each, and then start again.

use vstd::prelude::*;

verus! {

use crate::lehmer::{
    is_residue, lemma_state_after_add, lemma_state_after_is_residue, state_after, PERIOD,
};
use crate::order::lemma_powers_repeat;
use crate::power::{lemma_power_is_residue, power};
use vstd::arithmetic::div_mod::{lemma_mod_adds, lemma_mod_equivalence, lemma_mod_self_0, lemma_small_mod};
use vstd::relations::injective_on;
use vstd::set_lib::{lemma_int_range, lemma_map_size, lemma_subset_equality, set_int_range};

/// Every nonzero residue is a power of the multiplier, at an exponent below
/// the number of nonzero residues: those powers are all different, and there
/// are as many of them as there are nonzero residues.
proof fn lemma_powers_cover(y: nat) -> (k: nat)
    requires
        is_residue(y),
    ensures
        k < PERIOD,
        power(k) == y,
{
    let n = PERIOD as int;
    let f = |k: int| power(k as nat) as int;
    let exponents = set_int_range(0, n);
    let powers = exponents.map(f);
    let residues = set_int_range(1, n + 1);
    lemma_int_range(0, n);
    lemma_int_range(1, n + 1);
    assert forall|a: int, b: int|
        exponents.contains(a) && exponents.contains(b) && #[trigger] f(a) == #[trigger] f(
            b,
        ) implies a == b by {
        lemma_small_mod(a as nat, n as nat);
        lemma_small_mod(b as nat, n as nat);
        if a <= b {
            lemma_powers_repeat(a as nat, b as nat);
        } else {
            lemma_powers_repeat(b as nat, a as nat);
        }
    }
    assert(injective_on(f, exponents));
    lemma_map_size(exponents, powers, f);
    assert forall|x: int| powers.contains(x) implies residues.contains(x) by {
        let k = choose|k: int| exponents.contains(k) && x == f(k);
        lemma_power_is_residue(k as nat);
    }
    lemma_subset_equality(powers, residues);
    assert(residues.contains(y as int));
    assert(powers.contains(y as int));
    let k = choose|k: int| exponents.contains(k) && y as int == f(k);
    k as nat
}

/// The states after a nonzero residue are the powers of the multiplier after
/// one of them.
proof fn lemma_start_is_power(s: nat) -> (t: nat)
    requires
        is_residue(s),
    ensures
        t < PERIOD,
        forall|k: nat| #[trigger] state_after(s, k) == power(t + k),
{
    let t = lemma_powers_cover(s);
    assert forall|k: nat| #[trigger] state_after(s, k) == power(t + k) by {
        reveal(power);
        lemma_state_after_add(1, t, k);
    }
    t
}

/// Two counts of steps lead from a nonzero residue to the same state exactly
/// where they differ by a multiple of the number of nonzero residues.
pub proof fn lemma_states_repeat(s: nat, i: nat, j: nat)
    requires
        is_residue(s),
    ensures
        state_after(s, i) == state_after(s, j) <==> i % (PERIOD as nat) == j % (PERIOD as nat),
{
    let n = PERIOD as int;
    let t = lemma_start_is_power(s);
    if i <= j {
        lemma_powers_repeat(t + i, t + j);
    } else {
        lemma_powers_repeat(t + j, t + i);
    }
    // Both pairs are congruent exactly where `i - j` is a multiple.
    lemma_mod_equivalence((t + i) as int, (t + j) as int, n);
    lemma_mod_equivalence(i as int, j as int, n);
}

/// Every nonzero residue is reached from every other, by at least one step
/// and at most as many as there are nonzero residues.
pub proof fn lemma_state_reached(s: nat, y: nat) -> (k: nat)
    requires
        is_residue(s),
        is_residue(y),
    ensures
        1 <= k <= PERIOD,
        state_after(s, k) == y,
{
    let n = PERIOD as nat;
    let t = lemma_start_is_power(s);
    let u = lemma_powers_cover(y);
    let k = if u > t {
        (u - t) as nat
    } else {
        (u + n - t) as nat
    };
    assert(state_after(s, k) == power(t + k));
    if u > t {
        assert(t + k == u);
    } else {
        assert(t + k == u + n);
        lemma_mod_adds(u as int, n as int, n as int);
        lemma_mod_self_0(n as int);
        lemma_small_mod(u, n);
        lemma_powers_repeat(u, u + n);
    }
    k
}

/// The full period. From a nonzero residue, as many steps as there are
/// nonzero residues lead through nonzero residues only, through no one of
/// them twice, through every one of them, and at the last step back to the
/// start.
pub proof fn lemma_full_period(s: nat)
    requires
        is_residue(s),
    ensures
        forall|k: nat| 1 <= k <= PERIOD ==> is_residue(#[trigger] state_after(s, k)),
        forall|i: nat, j: nat|
            1 <= i < j <= PERIOD ==> #[trigger] state_after(s, i) != #[trigger] state_after(s, j),
        forall|y: nat|
            is_residue(y) ==> exists|k: nat| 1 <= k <= PERIOD && #[trigger] state_after(s, k) == y,
        state_after(s, PERIOD as nat) == s,
{
    let n = PERIOD as nat;
    assert forall|k: nat| 1 <= k <= PERIOD implies is_residue(#[trigger] state_after(s, k)) by {
        lemma_state_after_is_residue(s, k);
    }
    assert forall|i: nat, j: nat| 1 <= i < j <= PERIOD implies #[trigger] state_after(s, i)
        != #[trigger] state_after(s, j) by {
        lemma_states_repeat(s, i, j);
        lemma_small_mod(i, n);
        if j < n {
            lemma_small_mod(j, n);
        } else {
            lemma_mod_self_0(n as int);
        }
    }
    assert forall|y: nat| is_residue(y) implies exists|k: nat|
        1 <= k <= PERIOD && #[trigger] state_after(s, k) == y by {
        let k = lemma_state_reached(s, y);
    }
    assert(state_after(s, n) == s) by {
        lemma_states_repeat(s, n, 0);
        lemma_mod_self_0(n as int);
        lemma_small_mod(0, n);
    }
}

} // verus!
