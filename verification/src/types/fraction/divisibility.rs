//! Divisibility, greatest common divisors and least common multiples over
//! the natural numbers.

use vstd::arithmetic::div_mod::lemma_truncate_middle;
use vstd::prelude::*;

verus! {

/// `d` divides `n`: `n` is a multiple of `d`. Zero divides only zero.
pub open spec fn divides(d: nat, n: nat) -> bool {
    exists|k: nat| n == #[trigger] (k * d)
}

/// The greatest common divisor, by Euclid's recurrence. `gcd(a, 0)` is
/// `a`, so `gcd(0, 0)` is `0`.
pub open spec fn gcd(a: nat, b: nat) -> nat
    decreases b,
{
    if b == 0 {
        a
    } else {
        gcd(b, a % b)
    }
}

/// The least common multiple: `a * (b / gcd(a, b))`, and `0` for two
/// zeros, where there is nothing to divide by. It is `0` as soon as one
/// argument is.
pub open spec fn lcm(a: nat, b: nat) -> nat {
    if gcd(a, b) == 0 {
        0
    } else {
        a * (b / gcd(a, b))
    }
}

/// `g` is a common divisor of `a` and `b` that every common divisor divides.
pub open spec fn is_greatest_common_divisor(a: nat, b: nat, g: nat) -> bool {
    &&& divides(g, a)
    &&& divides(g, b)
    &&& forall|d: nat| divides(d, a) && divides(d, b) ==> #[trigger] divides(d, g)
}

/// `l` is a common multiple of `a` and `b` that divides every common
/// multiple.
pub open spec fn is_least_common_multiple(a: nat, b: nat, l: nat) -> bool {
    &&& divides(a, l)
    &&& divides(b, l)
    &&& forall|m: nat| divides(a, m) && divides(b, m) ==> #[trigger] divides(l, m)
}

/// A product is a multiple of each factor.
pub proof fn lemma_divides_multiple(d: nat, k: nat)
    ensures
        divides(d, k * d),
        divides(d, d * k),
{
    assert(k * d == d * k) by (nonlinear_arith);
}

/// Every number divides itself and zero, and one divides every number.
pub proof fn lemma_divides_basics(n: nat)
    ensures
        divides(n, n),
        divides(n, 0),
        divides(1, n),
{
    assert(n == 1 * n);
    lemma_divides_multiple(n, 1);
    assert(0 == 0 * n);
    lemma_divides_multiple(n, 0);
    assert(n == n * 1);
    lemma_divides_multiple(1, n);
}

/// Where `d` is positive, it divides exactly those `n` that leave no
/// remainder, and `n / d` is then the cofactor.
pub proof fn lemma_divides_remainder(d: nat, n: nat)
    requires
        d > 0,
    ensures
        divides(d, n) <==> n % d == 0,
        divides(d, n) ==> n == (n / d) * d,
{
    if divides(d, n) {
        let k = choose|k: nat| n == #[trigger] (k * d);
        assert(n % d == 0 && n / d == k) by (nonlinear_arith)
            requires
                n == k * d,
                d > 0,
        ;
    }
    if n % d == 0 {
        assert(n == (n / d) * d) by (nonlinear_arith)
            requires
                n % d == 0,
                d > 0,
        ;
        lemma_divides_multiple(d, n / d);
    }
}

/// Divisibility is transitive.
pub proof fn lemma_divides_transitive(a: nat, b: nat, c: nat)
    requires
        divides(a, b),
        divides(b, c),
    ensures
        divides(a, c),
{
    let j = choose|j: nat| b == #[trigger] (j * a);
    let k = choose|k: nat| c == #[trigger] (k * b);
    assert(c == (k * j) * a) by (nonlinear_arith)
        requires
            b == j * a,
            c == k * b,
    ;
    lemma_divides_multiple(a, k * j);
}

/// Two naturals that divide each other are equal.
pub proof fn lemma_divides_antisymmetric(a: nat, b: nat)
    requires
        divides(a, b),
        divides(b, a),
    ensures
        a == b,
{
    let j = choose|j: nat| b == #[trigger] (j * a);
    let k = choose|k: nat| a == #[trigger] (k * b);
    assert(a == b) by (nonlinear_arith)
        requires
            b == j * a,
            a == k * b,
    ;
}

/// A positive multiple is at least as large as its divisor.
pub proof fn lemma_divides_bound(d: nat, n: nat)
    requires
        divides(d, n),
        n > 0,
    ensures
        0 < d <= n,
{
    let k = choose|k: nat| n == #[trigger] (k * d);
    assert(0 < d <= n) by (nonlinear_arith)
        requires
            n == k * d,
            n > 0,
    ;
}

/// A divisor of the divisor and of the remainder divides the dividend,
/// and a divisor of the dividend and of the divisor divides the remainder.
pub proof fn lemma_divides_euclid_step(d: nat, a: nat, b: nat)
    requires
        b > 0,
        divides(d, b),
    ensures
        divides(d, a) <==> divides(d, a % b),
{
    let q = a / b;
    let r = a % b;
    assert(a == q * b + r) by (nonlinear_arith)
        requires
            b > 0,
            q == a / b,
            r == a % b,
    ;
    let j = choose|j: nat| b == #[trigger] (j * d);
    if divides(d, r) {
        let k = choose|k: nat| r == #[trigger] (k * d);
        assert(a == (q * j + k) * d) by (nonlinear_arith)
            requires
                a == q * b + r,
                b == j * d,
                r == k * d,
        ;
        lemma_divides_multiple(d, q * j + k);
    }
    if divides(d, a) {
        let k = choose|k: nat| a == #[trigger] (k * d);
        if d == 0 {
            assert(a == 0) by (nonlinear_arith)
                requires
                    a == k * d,
                    d == 0,
            ;
            lemma_divides_basics(d);
        } else {
            assert(k >= q * j && r == (k - q * j) * d) by (nonlinear_arith)
                requires
                    a == q * b + r,
                    b == j * d,
                    a == k * d,
                    d > 0,
            ;
            lemma_divides_multiple(d, (k - q * j) as nat);
        }
    }
}

/// The greatest common divisor divides both numbers.
pub proof fn lemma_gcd_divides_both(a: nat, b: nat)
    ensures
        divides(gcd(a, b), a),
        divides(gcd(a, b), b),
    decreases b,
{
    if b == 0 {
        lemma_divides_basics(a);
    } else {
        lemma_gcd_divides_both(b, a % b);
        lemma_divides_euclid_step(gcd(a, b), a, b);
    }
}

/// Every common divisor divides the greatest common divisor.
pub proof fn lemma_gcd_is_greatest(a: nat, b: nat, d: nat)
    requires
        divides(d, a),
        divides(d, b),
    ensures
        divides(d, gcd(a, b)),
    decreases b,
{
    if b != 0 {
        lemma_divides_euclid_step(d, a, b);
        lemma_gcd_is_greatest(b, a % b, d);
    }
}

/// Euclid's recurrence computes the greatest common divisor, and nothing
/// else is one.
pub proof fn lemma_gcd_characterization(a: nat, b: nat, g: nat)
    ensures
        is_greatest_common_divisor(a, b, g) <==> g == gcd(a, b),
{
    lemma_gcd_divides_both(a, b);
    assert forall|d: nat| divides(d, a) && divides(d, b) implies #[trigger] divides(
        d,
        gcd(a, b),
    ) by {
        lemma_gcd_is_greatest(a, b, d);
    }
    if is_greatest_common_divisor(a, b, g) {
        assert(divides(gcd(a, b), g));
        lemma_gcd_is_greatest(a, b, g);
        lemma_divides_antisymmetric(g, gcd(a, b));
    }
}

/// The greatest common divisor does not depend on the order of its
/// arguments.
pub proof fn lemma_gcd_commutative(a: nat, b: nat)
    ensures
        gcd(a, b) == gcd(b, a),
{
    lemma_gcd_divides_both(a, b);
    lemma_gcd_divides_both(b, a);
    lemma_gcd_is_greatest(a, b, gcd(b, a));
    lemma_gcd_is_greatest(b, a, gcd(a, b));
    lemma_divides_antisymmetric(gcd(a, b), gcd(b, a));
}

/// With zero, the greatest common divisor is the other number.
pub proof fn lemma_gcd_zero(a: nat)
    ensures
        gcd(a, 0) == a,
        gcd(0, a) == a,
{
    lemma_gcd_commutative(0, a);
}

/// The greatest common divisor is zero only for two zeros, and is never
/// larger than a positive argument.
pub proof fn lemma_gcd_bounds(a: nat, b: nat)
    ensures
        gcd(a, b) == 0 <==> a == 0 && b == 0,
        a > 0 ==> gcd(a, b) <= a,
        b > 0 ==> gcd(a, b) <= b,
{
    lemma_gcd_divides_both(a, b);
    if a > 0 {
        lemma_divides_bound(gcd(a, b), a);
    }
    if b > 0 {
        lemma_divides_bound(gcd(a, b), b);
    }
    if a == 0 && b == 0 {
        assert(gcd(a, b) == 0);
    }
}

/// A common factor of both arguments comes out of the greatest common
/// divisor.
pub proof fn lemma_gcd_scale(k: nat, a: nat, b: nat)
    ensures
        gcd(k * a, k * b) == k * gcd(a, b),
    decreases b,
{
    if b == 0 {
        assert(k * b == 0) by (nonlinear_arith)
            requires
                b == 0,
        ;
    } else if k == 0 {
        assert(k * a == 0 && k * b == 0 && k * gcd(a, b) == 0) by (nonlinear_arith)
            requires
                k == 0,
        ;
    } else {
        lemma_truncate_middle(a as int, k as int, b as int);
        assert(k * b > 0);
        assert((k * a) % (k * b) == k * (a % b));
        lemma_gcd_scale(k, b, a % b);
    }
}

/// Dividing both numbers by their greatest common divisor leaves two
/// numbers with no common divisor but one.
pub proof fn lemma_gcd_of_quotients(a: nat, b: nat)
    requires
        gcd(a, b) > 0,
    ensures
        a == (a / gcd(a, b)) * gcd(a, b),
        b == (b / gcd(a, b)) * gcd(a, b),
        gcd(a / gcd(a, b), b / gcd(a, b)) == 1,
{
    let g = gcd(a, b);
    lemma_gcd_divides_both(a, b);
    lemma_divides_remainder(g, a);
    lemma_divides_remainder(g, b);
    lemma_gcd_scale(g, a / g, b / g);
    let h = gcd(a / g, b / g);
    assert(g * (a / g) == a && g * (b / g) == b) by (nonlinear_arith)
        requires
            a == (a / g) * g,
            b == (b / g) * g,
    ;
    assert(h == 1) by (nonlinear_arith)
        requires
            g == g * h,
            g > 0,
    ;
}

/// Euclid's lemma: a divisor of a product that shares no divisor with
/// one factor divides the other.
pub proof fn lemma_divides_coprime_factor(d: nat, a: nat, x: nat)
    requires
        divides(d, a * x),
        gcd(a, d) == 1,
    ensures
        divides(d, x),
{
    lemma_gcd_scale(x, a, d);
    assert(x * a == a * x && x * 1 == x) by (nonlinear_arith);
    lemma_divides_multiple(d, x);
    lemma_gcd_is_greatest(x * a, x * d, d);
}

/// The least common multiple times the greatest common divisor is the
/// product of the two numbers.
pub proof fn lemma_lcm_gcd_product(a: nat, b: nat)
    ensures
        lcm(a, b) * gcd(a, b) == a * b,
{
    let g = gcd(a, b);
    lemma_gcd_bounds(a, b);
    if g == 0 {
        assert(lcm(a, b) * g == a * b) by (nonlinear_arith)
            requires
                g == 0,
                a == 0,
        ;
    } else {
        lemma_gcd_of_quotients(a, b);
        assert((a * (b / g)) * g == a * b) by (nonlinear_arith)
            requires
                b == (b / g) * g,
        ;
    }
}

/// The least common multiple does not depend on the order of its
/// arguments; it is the first number times the second's cofactor and the
/// second times the first's.
pub proof fn lemma_lcm_commutative(a: nat, b: nat)
    ensures
        lcm(a, b) == lcm(b, a),
        gcd(a, b) > 0 ==> lcm(a, b) == (a / gcd(a, b)) * b,
{
    let g = gcd(a, b);
    lemma_gcd_commutative(a, b);
    if g > 0 {
        lemma_gcd_of_quotients(a, b);
        assert(a * (b / g) == (a / g) * b && (a / g) * b == b * (a / g)) by (nonlinear_arith)
            requires
                a == (a / g) * g,
                b == (b / g) * g,
        ;
    }
}

/// With zero, the least common multiple is zero.
pub proof fn lemma_lcm_zero(a: nat)
    ensures
        lcm(a, 0) == 0,
        lcm(0, a) == 0,
{
    lemma_lcm_commutative(a, 0);
    lemma_gcd_zero(a);
    if a > 0 {
        assert(0nat / a == 0) by (nonlinear_arith)
            requires
                a > 0,
        ;
        assert(a * 0 == 0);
    }
}

/// For two positive numbers the least common multiple is positive, and
/// dividing it by either number gives the other's cofactor.
pub proof fn lemma_lcm_cofactors(a: nat, b: nat)
    requires
        a > 0,
        b > 0,
    ensures
        lcm(a, b) > 0,
        lcm(a, b) / a == b / gcd(a, b),
        lcm(a, b) / b == a / gcd(a, b),
        lcm(a, b) == a * (b / gcd(a, b)),
        lcm(a, b) == b * (a / gcd(a, b)),
        b / gcd(a, b) > 0,
        a / gcd(a, b) > 0,
{
    let g = gcd(a, b);
    lemma_gcd_bounds(a, b);
    lemma_gcd_of_quotients(a, b);
    lemma_lcm_commutative(a, b);
    let p = a / g;
    let q = b / g;
    assert(p > 0 && q > 0) by (nonlinear_arith)
        requires
            a == p * g,
            b == q * g,
            a > 0,
            b > 0,
    ;
    assert((a * q) / a == q && a * q > 0) by (nonlinear_arith)
        requires
            a > 0,
            q > 0,
    ;
    assert((p * b) / b == p && p * b == b * p) by (nonlinear_arith)
        requires
            b > 0,
            p > 0,
    ;
}

/// The least common multiple is a multiple of both numbers.
pub proof fn lemma_lcm_is_common_multiple(a: nat, b: nat)
    ensures
        divides(a, lcm(a, b)),
        divides(b, lcm(a, b)),
{
    let g = gcd(a, b);
    if g == 0 {
        lemma_divides_basics(a);
        lemma_divides_basics(b);
    } else {
        lemma_lcm_commutative(a, b);
        lemma_divides_multiple(a, b / g);
        lemma_divides_multiple(b, a / g);
    }
}

/// Every common multiple is a multiple of the least common multiple.
pub proof fn lemma_lcm_is_least(a: nat, b: nat, m: nat)
    requires
        divides(a, m),
        divides(b, m),
    ensures
        divides(lcm(a, b), m),
{
    let g = gcd(a, b);
    if g == 0 {
        lemma_gcd_bounds(a, b);
        lemma_divides_basics(m);
        let k = choose|k: nat| m == #[trigger] (k * a);
        assert(m == 0) by (nonlinear_arith)
            requires
                m == k * a,
                a == 0,
        ;
        lemma_divides_basics(0);
    } else {
        lemma_gcd_of_quotients(a, b);
        let p = a / g;
        let q = b / g;
        let x = choose|x: nat| m == #[trigger] (x * a);
        let y = choose|y: nat| m == #[trigger] (y * b);
        // p * x == q * y, so q divides p * x, and q shares nothing with p.
        assert(p * x == y * q) by (nonlinear_arith)
            requires
                m == x * a,
                m == y * b,
                a == p * g,
                b == q * g,
                g > 0,
        ;
        lemma_divides_multiple(q, y);
        lemma_divides_coprime_factor(q, p, x);
        let z = choose|z: nat| x == #[trigger] (z * q);
        assert(m == z * (a * q)) by (nonlinear_arith)
            requires
                m == x * a,
                x == z * q,
        ;
        lemma_divides_multiple(a * q, z);
    }
}

/// The formula computes the least common multiple, and nothing else is
/// one.
pub proof fn lemma_lcm_characterization(a: nat, b: nat, l: nat)
    ensures
        is_least_common_multiple(a, b, l) <==> l == lcm(a, b),
{
    lemma_lcm_is_common_multiple(a, b);
    assert forall|m: nat| divides(a, m) && divides(b, m) implies #[trigger] divides(
        lcm(a, b),
        m,
    ) by {
        lemma_lcm_is_least(a, b, m);
    }
    if is_least_common_multiple(a, b, l) {
        assert(divides(l, lcm(a, b)));
        lemma_lcm_is_least(a, b, l);
        lemma_divides_antisymmetric(l, lcm(a, b));
    }
}

} // verus!
