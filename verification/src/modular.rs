//! Division modulo a number.

use crate::bigint::floor_mod;
use vstd::arithmetic::div_mod::{
    lemma_fundamental_div_mod, lemma_mod_multiples_basic, lemma_small_mod,
};
use vstd::prelude::*;

verus! {

/// `x` times `a` is one modulo `m`.
pub open spec fn is_inverse(x: int, a: int, m: int) -> bool {
    (x * a - 1) % m == 0
}

/// Some number is an inverse of `a` modulo `m`.
pub open spec fn invertible(a: int, m: int) -> bool {
    exists|x: int| is_inverse(x, a, m)
}

/// `a` lies between zero and `m`, and is not `m`.
pub open spec fn reduced(a: int, m: int) -> bool {
    if m > 0 {
        0 <= a < m
    } else {
        m < a <= 0
    }
}

/// `q` solves `q * b == a` modulo `m`.
pub open spec fn is_mod_quotient(q: int, a: int, b: int, m: int) -> bool {
    &&& reduced(q, m)
    &&& (q * b - a) % m == 0
}

/// What `a` divided by `b` is modulo `m`, where `b` has an inverse. Then there is one such number.
pub open spec fn mod_quotient(a: int, b: int, m: int) -> Option<int> {
    if invertible(b, m) {
        Some(choose|q: int| is_mod_quotient(q, a, b, m))
    } else {
        None
    }
}

/// `p` has no divisor between one and itself.
pub open spec fn is_prime(p: int) -> bool {
    &&& p > 1
    &&& forall|d: int| 1 < d < p ==> #[trigger] (p % d) != 0
}

/// A remainder does not depend on the sign of the divisor.
pub proof fn lemma_mod_of_opposite(a: int, d: int)
    requires
        d != 0,
    ensures
        a % (-d) == a % d,
{
    assert(a % (-d) == a % d) by (nonlinear_arith)
        requires
            d != 0,
    ;
}

/// A multiple leaves no remainder.
proof fn lemma_multiple(k: int, m: int)
    requires
        m != 0,
    ensures
        (k * m) % m == 0,
{
    if m > 0 {
        lemma_mod_multiples_basic(k, m);
    } else {
        lemma_mod_multiples_basic(-k, -m);
        lemma_mod_of_opposite(k * m, m);
        assert((-k) * (-m) == k * m) by (nonlinear_arith);
    }
}

/// A number that leaves no remainder is a multiple.
proof fn lemma_factor(a: int, m: int) -> (k: int)
    requires
        m != 0,
        a % m == 0,
    ensures
        a == k * m,
{
    lemma_fundamental_div_mod(a, m);
    assert(m * (a / m) == (a / m) * m) by (nonlinear_arith);
    a / m
}

/// The negation of a multiple is a multiple, and nothing else is.
pub proof fn lemma_negation_of_multiple(a: int, m: int)
    requires
        m != 0,
    ensures
        (-a) % m == 0 <==> a % m == 0,
{
    if a % m == 0 {
        lemma_combination(-1, a, 0, a, m);
    }
    if (-a) % m == 0 {
        lemma_combination(-1, -a, 0, -a, m);
    }
}

/// What is made up of two multiples is a multiple.
pub proof fn lemma_combination(c: int, a: int, d: int, b: int, m: int)
    requires
        m != 0,
        a % m == 0,
        b % m == 0,
    ensures
        (c * a + d * b) % m == 0,
{
    let k = lemma_factor(a, m);
    let l = lemma_factor(b, m);
    assert(c * a + d * b == (c * k + d * l) * m) by (nonlinear_arith)
        requires
            a == k * m,
            b == l * m,
    ;
    lemma_multiple(c * k + d * l, m);
}

/// A number and its remainder differ by a multiple.
pub proof fn lemma_remainder_is_congruent(a: int, m: int)
    requires
        m != 0,
    ensures
        (a % m - a) % m == 0,
{
    lemma_fundamental_div_mod(a, m);
    lemma_multiple(-(a / m), m);
    assert((-(a / m)) * m == -(m * (a / m))) by (nonlinear_arith);
}

/// A number and what `floor_mod` leaves of it differ by a multiple.
pub proof fn lemma_floor_mod_is_congruent(a: int, m: int)
    requires
        m != 0,
    ensures
        reduced(floor_mod(a, m), m),
        (floor_mod(a, m) - a) % m == 0,
{
    if m > 0 {
        lemma_remainder_is_congruent(a, m);
    } else {
        lemma_mod_of_opposite(-a, m);
        lemma_remainder_is_congruent(-a, m);
        lemma_negation_of_multiple((-a) % m - (-a), m);
    }
}

/// Two reduced numbers that differ by a multiple are equal.
proof fn lemma_reduced_is_unique(a: int, b: int, m: int)
    requires
        m != 0,
        reduced(a, m),
        reduced(b, m),
        (a - b) % m == 0,
    ensures
        a == b,
{
    let k = lemma_factor(a - b, m);
    assert(k == 0) by (nonlinear_arith)
        requires
            a - b == k * m,
            m > 0 ==> -m < a - b < m,
            m < 0 ==> m < a - b < -m,
            m != 0,
    ;
}

/// `a` times an inverse of `b`, reduced, is a quotient.
pub proof fn lemma_quotient_from_inverse(a: int, b: int, m: int, x: int)
    requires
        m != 0,
        is_inverse(x, b, m),
    ensures
        is_mod_quotient(floor_mod(a * x, m), a, b, m),
{
    let q = floor_mod(a * x, m);
    lemma_floor_mod_is_congruent(a * x, m);
    lemma_combination(b, q - a * x, a, x * b - 1, m);
    assert(q * b - a == b * (q - a * x) + a * (x * b - 1)) by (nonlinear_arith);
}

/// There is at most one quotient by a number that has an inverse.
pub proof fn lemma_quotient_is_unique(a: int, b: int, m: int, p: int, q: int)
    requires
        m != 0,
        invertible(b, m),
        is_mod_quotient(p, a, b, m),
        is_mod_quotient(q, a, b, m),
    ensures
        p == q,
{
    let x = choose|x: int| is_inverse(x, b, m);
    lemma_combination(1, p * b - a, -1, q * b - a, m);
    lemma_combination(x, p * b - q * b, q - p, x * b - 1, m);
    assert(p - q == x * (p * b - q * b) + (q - p) * (x * b - 1)) by (nonlinear_arith);
    lemma_reduced_is_unique(p, q, m);
}

/// Where `b` has an inverse, `mod_quotient` is the quotient, and there is no other.
pub proof fn lemma_mod_quotient(a: int, b: int, m: int)
    requires
        m != 0,
        invertible(b, m),
    ensures
        mod_quotient(a, b, m) matches Some(q) && is_mod_quotient(q, a, b, m),
        forall|q: int| is_mod_quotient(q, a, b, m) ==> mod_quotient(a, b, m) == Some(q),
{
    let x = choose|x: int| is_inverse(x, b, m);
    lemma_quotient_from_inverse(a, b, m, x);
    let chosen = choose|q: int| is_mod_quotient(q, a, b, m);
    assert forall|q: int| is_mod_quotient(q, a, b, m) implies mod_quotient(a, b, m) == Some(q) by {
        lemma_quotient_is_unique(a, b, m, chosen, q);
    }
}

/// A common divisor of `a` and `b` that is made up of them.
proof fn lemma_common_divisor(a: int, b: int) -> (r: (int, int, int))
    requires
        0 < a,
        0 <= b,
    ensures
        ({
            let (d, x, y) = r;
            &&& 0 < d
            &&& a % d == 0
            &&& b % d == 0
            &&& d == x * a + y * b
        }),
    decreases b,
{
    if b == 0 {
        lemma_multiple(1, a);
        lemma_small_mod(0, a as nat);
        assert(a == 1 * a + 0 * b);
        (a, 1, 0)
    } else {
        let rest = a % b;
        lemma_fundamental_div_mod(a, b);
        let (d, x, y) = lemma_common_divisor(b, rest);
        lemma_combination(a / b, b, 1, rest, d);
        assert(a == (a / b) * b + 1 * rest) by (nonlinear_arith)
            requires
                a == b * (a / b) + rest,
        ;
        assert(d == y * a + (x - y * (a / b)) * b) by (nonlinear_arith)
            requires
                d == x * b + y * rest,
                a == b * (a / b) + rest,
        ;
        (d, y, x - y * (a / b))
    }
}

/// Modulo a prime, every number between zero and the prime has an inverse.
pub proof fn lemma_invertible_modulo_prime(a: int, p: int)
    requires
        is_prime(p),
        0 < a < p,
    ensures
        invertible(a, p),
{
    let (d, x, y) = lemma_common_divisor(a, p);
    let k = lemma_factor(a, d);
    assert(d <= a) by (nonlinear_arith)
        requires
            a == k * d,
            0 < a,
            0 < d,
    ;
    assert(d == 1);
    lemma_multiple(-y, p);
    assert(x * a - 1 == (-y) * p) by (nonlinear_arith)
        requires
            1 == x * a + y * p,
    ;
    assert(is_inverse(x, a, p));
}

} // verus!
