//! The order of the multiplier: no power of it before the one at the number
//! of nonzero residues is one.
//!
//! The exponents at which the power is one are closed under sums and
//! differences, so with any two of them they hold a common divisor of both.
//! Were there one below the number of nonzero residues, a proper divisor of
//! that number would be among them, and with it the number divided by one of
//! its prime factors: 2, 3, 7, 11, 31, 151 or 331. The powers there are
//! computed, and none is one.

use vstd::prelude::*;

verus! {

use crate::lehmer::PERIOD;
use crate::power::{lemma_mul_mod_one, lemma_power_add, lemma_power_base, lemma_power_is_residue, power};
use crate::power_table::{
    lemma_power_at_period, lemma_power_at_period_over_11, lemma_power_at_period_over_151,
    lemma_power_at_period_over_2, lemma_power_at_period_over_3, lemma_power_at_period_over_31,
    lemma_power_at_period_over_331, lemma_power_at_period_over_7,
};
use vstd::arithmetic::div_mod::{
    lemma_add_mod_noop, lemma_fundamental_div_mod, lemma_mod_equivalence, lemma_mod_multiples_basic,
    lemma_mod_self_0, lemma_mul_mod_noop_general, lemma_small_mod,
};

/// Whether the `k`-th power of the multiplier is one.
pub open spec fn returns_to_one(k: nat) -> bool {
    power(k) == 1
}

/// Whether `q` is one of the prime factors of the number of nonzero residues,
/// which is 2 * 3 * 3 * 7 * 11 * 31 * 151 * 331.
pub open spec fn is_period_prime(q: nat) -> bool {
    q == 2 || q == 3 || q == 7 || q == 11 || q == 31 || q == 151 || q == 331
}

/// Where the power is one at two exponents, it is one at their sum.
proof fn lemma_returns_add(a: nat, b: nat)
    requires
        returns_to_one(a),
        returns_to_one(b),
    ensures
        returns_to_one(a + b),
{
    lemma_power_add(a, b);
    lemma_mul_mod_one(1);
}

/// Where the power is one at an exponent, it is one at its multiples.
proof fn lemma_returns_multiple(a: nat, t: nat)
    requires
        returns_to_one(a),
    ensures
        returns_to_one(a * t),
    decreases t,
{
    if t == 0 {
        lemma_power_base();
        assert(a * 0 == 0);
    } else {
        lemma_returns_multiple(a, (t - 1) as nat);
        lemma_returns_add(a * ((t - 1) as nat), a);
        assert(a * ((t - 1) as nat) + a == a * t) by (nonlinear_arith)
            requires
                t > 0,
        ;
    }
}

/// Where the power is one at two exponents, it is one at their difference.
proof fn lemma_returns_sub(a: nat, b: nat)
    requires
        returns_to_one(a),
        returns_to_one(b),
        b <= a,
    ensures
        returns_to_one((a - b) as nat),
{
    let d = (a - b) as nat;
    lemma_power_add(d, b);
    lemma_power_is_residue(d);
    lemma_mul_mod_one(power(d));
    assert(d + b == a);
}

/// Where the power is one at two exponents, it is one at the remainder of
/// the one by the other.
proof fn lemma_returns_mod(a: nat, b: nat)
    requires
        returns_to_one(a),
        returns_to_one(b),
        b > 0,
    ensures
        returns_to_one(a % b),
{
    lemma_fundamental_div_mod(a as int, b as int);
    lemma_returns_multiple(b, a / b);
    lemma_returns_sub(a, b * (a / b));
}

/// A multiple of a multiple of `g`, with a multiple of `g` added, is a
/// multiple of `g`.
proof fn lemma_divides_combination(g: int, b: int, t: int, r: int)
    requires
        g > 0,
        b % g == 0,
        r % g == 0,
    ensures
        (b * t + r) % g == 0,
{
    lemma_small_mod(0, g as nat);
    lemma_mul_mod_noop_general(b, t, g);
    assert((b % g) * t == 0) by (nonlinear_arith)
        requires
            b % g == 0,
    ;
    assert((b * t) % g == 0);
    lemma_add_mod_noop(b * t, r, g);
}

/// Two exponents at which the power is one have a common divisor at which
/// it is one.
proof fn lemma_returns_common_divisor(a: nat, b: nat) -> (g: nat)
    requires
        returns_to_one(a),
        returns_to_one(b),
        a > 0,
    ensures
        0 < g <= a,
        returns_to_one(g),
        a % g == 0,
        b % g == 0,
    decreases b,
{
    if b == 0 {
        lemma_mod_self_0(a as int);
        a
    } else {
        lemma_returns_mod(a, b);
        let g = lemma_returns_common_divisor(b, a % b);
        lemma_fundamental_div_mod(a as int, b as int);
        lemma_divides_combination(g as int, b as int, (a / b) as int, (a % b) as int);
        if a < g {
            lemma_small_mod(a, g);
        }
        g
    }
}

/// Among the residues of two, a product is zero only where a factor is. The
/// six lemmas after this one say the same of the other primes.
proof fn lemma_residues_2(x: u16, y: u16)
    by (bit_vector)
    requires
        x < 2,
        y < 2,
        (x * y) % 2 == 0,
    ensures
        x == 0 || y == 0,
{
}

proof fn lemma_residues_3(x: u16, y: u16)
    by (bit_vector)
    requires
        x < 3,
        y < 3,
        (x * y) % 3 == 0,
    ensures
        x == 0 || y == 0,
{
}

proof fn lemma_residues_7(x: u16, y: u16)
    by (bit_vector)
    requires
        x < 7,
        y < 7,
        (x * y) % 7 == 0,
    ensures
        x == 0 || y == 0,
{
}

proof fn lemma_residues_11(x: u16, y: u16)
    by (bit_vector)
    requires
        x < 11,
        y < 11,
        (x * y) % 11 == 0,
    ensures
        x == 0 || y == 0,
{
}

proof fn lemma_residues_31(x: u16, y: u16)
    by (bit_vector)
    requires
        x < 31,
        y < 31,
        (x * y) % 31 == 0,
    ensures
        x == 0 || y == 0,
{
}

proof fn lemma_residues_151(x: u16, y: u16)
    by (bit_vector)
    requires
        x < 151,
        y < 151,
        (x * y) % 151 == 0,
    ensures
        x == 0 || y == 0,
{
}

proof fn lemma_residues_331(x: u16, y: u16)
    by (bit_vector)
    requires
        x < 331,
        y < 331,
        (x * y) % 331 == 0,
    ensures
        x == 0 || y == 0,
{
}

/// Each of the seven numbers is prime in the sense that counts here: where
/// it divides a product it divides a factor.
proof fn lemma_prime_divides_factor(q: nat, x: nat, y: nat)
    requires
        is_period_prime(q),
        (x * y) % q == 0,
    ensures
        x % q == 0 || y % q == 0,
{
    lemma_mul_mod_noop_general(x as int, y as int, q as int);
    let r: u16 = (x % q) as u16;
    let t: u16 = (y % q) as u16;
    assert(((x % q) * (y % q)) % q == 0);
    if q == 2 {
        lemma_residues_2(r, t);
    } else if q == 3 {
        lemma_residues_3(r, t);
    } else if q == 7 {
        lemma_residues_7(r, t);
    } else if q == 11 {
        lemma_residues_11(r, t);
    } else if q == 31 {
        lemma_residues_31(r, t);
    } else if q == 151 {
        lemma_residues_151(r, t);
    } else {
        lemma_residues_331(r, t);
    }
}

/// Where `e` divides `q * m` and the prime `q` does not divide `e`, `e`
/// divides `m`.
proof fn lemma_strip_prime(q: nat, e: nat, m: nat)
    requires
        is_period_prime(q),
        e > 0,
        e % q != 0,
        (q * m) % e == 0,
    ensures
        m % e == 0,
{
    let t = (q * m) / e;
    lemma_fundamental_div_mod((q * m) as int, e as int);
    assert(e * t == q * m);
    lemma_mod_multiples_basic(m as int, q as int);
    assert((e * t) % q == 0) by {
        assert(m * q == q * m) by (nonlinear_arith);
    }
    lemma_prime_divides_factor(q, e, t);
    let u = t / q;
    lemma_fundamental_div_mod(t as int, q as int);
    assert(t == q * u);
    assert(m == e * u) by (nonlinear_arith)
        requires
            e * t == q * m,
            t == q * u,
            q > 0,
    ;
    lemma_mod_multiples_basic(u as int, e as int);
    assert(u * e == e * u) by (nonlinear_arith);
}

/// A divisor of the number of nonzero residues, other than one, is a
/// multiple of one of the seven primes.
proof fn lemma_divisor_has_prime(e: nat) -> (q: nat)
    requires
        e >= 2,
        PERIOD as nat % e == 0,
    ensures
        is_period_prime(q),
        e % q == 0,
{
    if e % 2 == 0 {
        2
    } else if e % 3 == 0 {
        3
    } else if e % 7 == 0 {
        7
    } else if e % 11 == 0 {
        11
    } else if e % 31 == 0 {
        31
    } else if e % 151 == 0 {
        151
    } else if e % 331 == 0 {
        331
    } else {
        // Prime after prime leaves the number: `e` divides what is left, and
        // at the end divides one.
        lemma_strip_prime(2, e, 1073741823);
        lemma_strip_prime(3, e, 357913941);
        lemma_strip_prime(3, e, 119304647);
        lemma_strip_prime(7, e, 17043521);
        lemma_strip_prime(11, e, 1549411);
        lemma_strip_prime(31, e, 49981);
        lemma_strip_prime(151, e, 331);
        lemma_strip_prime(331, e, 1);
        lemma_small_mod(1, e);
        2
    }
}

/// Where the power is one at `g`, and `g` times a multiple of the prime `q`
/// is the number of nonzero residues, the power is one at that number
/// divided by `q`.
proof fn lemma_returns_at_period_over(q: nat, g: nat, e: nat, n: nat)
    requires
        returns_to_one(g),
        q > 0,
        e % q == 0,
        g * e == PERIOD,
        q * n == PERIOD,
    ensures
        returns_to_one(n),
{
    let u = e / q;
    lemma_fundamental_div_mod(e as int, q as int);
    assert(e == q * u);
    assert(g * u == n) by (nonlinear_arith)
        requires
            g * e == q * n,
            e == q * u,
            q > 0,
    ;
    lemma_returns_multiple(g, u);
}

/// The order of the multiplier is the number of nonzero residues: its power
/// is one there and at no positive exponent before.
pub proof fn lemma_order_is_period(k: nat)
    requires
        0 < k < PERIOD,
    ensures
        power(k) != 1,
        power(PERIOD as nat) == 1,
{
    lemma_power_at_period();
    if power(k) == 1 {
        let n = PERIOD as nat;
        let g = lemma_returns_common_divisor(k, n);
        let e = n / g;
        lemma_fundamental_div_mod(n as int, g as int);
        assert(g * e == n);
        assert(e >= 2) by (nonlinear_arith)
            requires
                g * e == n,
                0 < g < n,
        ;
        lemma_mod_multiples_basic(g as int, e as int);
        assert(n % e == 0) by {
            assert(g * e == e * g) by (nonlinear_arith);
        }
        let q = lemma_divisor_has_prime(e);
        lemma_power_at_period_over_2();
        lemma_power_at_period_over_3();
        lemma_power_at_period_over_7();
        lemma_power_at_period_over_11();
        lemma_power_at_period_over_31();
        lemma_power_at_period_over_151();
        lemma_power_at_period_over_331();
        if q == 2 {
            lemma_returns_at_period_over(q, g, e, 1073741823);
        } else if q == 3 {
            lemma_returns_at_period_over(q, g, e, 715827882);
        } else if q == 7 {
            lemma_returns_at_period_over(q, g, e, 306783378);
        } else if q == 11 {
            lemma_returns_at_period_over(q, g, e, 195225786);
        } else if q == 31 {
            lemma_returns_at_period_over(q, g, e, 69273666);
        } else if q == 151 {
            lemma_returns_at_period_over(q, g, e, 14221746);
        } else {
            lemma_returns_at_period_over(q, g, e, 6487866);
        }
        assert(false);
    }
}

/// The power is one exactly at the multiples of the number of nonzero
/// residues.
pub proof fn lemma_returns_at_multiples(k: nat)
    ensures
        returns_to_one(k) <==> k % (PERIOD as nat) == 0,
{
    let n = PERIOD as nat;
    lemma_power_at_period();
    lemma_fundamental_div_mod(k as int, n as int);
    if k % n == 0 {
        lemma_returns_multiple(n, k / n);
    } else if returns_to_one(k) {
        lemma_returns_mod(k, n);
        lemma_order_is_period(k % n);
    }
}

/// Two powers are the same exactly where their exponents differ by a
/// multiple of the number of nonzero residues.
pub proof fn lemma_powers_repeat(i: nat, j: nat)
    requires
        i <= j,
    ensures
        power(i) == power(j) <==> i % (PERIOD as nat) == j % (PERIOD as nat),
{
    let n = PERIOD as nat;
    let d = (j - i) as nat;
    lemma_returns_at_multiples(d);
    lemma_mod_equivalence(j as int, i as int, n as int);
    lemma_power_add(d, i);
    lemma_power_is_residue(i);
    if returns_to_one(d) {
        lemma_mul_mod_one(power(i));
    } else if power(i) == power(j) {
        // At a multiple `c` of the number that is no less than `i`, the
        // power is one, and it is the power at `i` times that at `c - i`.
        let c = n * i;
        assert(c >= i) by (nonlinear_arith)
            requires
                c == n * i,
                n >= 1,
        ;
        let rest = (c - i) as nat;
        lemma_power_at_period();
        lemma_returns_multiple(n, i);
        lemma_power_add(i, rest);
        lemma_power_add(j, rest);
        assert(i + rest == c);
        assert(j + rest == d + c);
        lemma_returns_sub(d + c, c);
    }
}

} // verus!
