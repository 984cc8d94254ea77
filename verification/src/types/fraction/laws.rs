//! What holds of the operations on ratios, whatever the operands.

use crate::types::fraction::divisibility::{
    lcm, lemma_divides_antisymmetric, lemma_divides_coprime_factor, lemma_divides_multiple,
    lemma_lcm_cofactors, lemma_lcm_commutative,
};
use crate::types::fraction::ratio::{lemma_simplified, Ratio};
use vstd::math::abs;
use vstd::prelude::*;

verus! {

/// Having the same value carries over a ratio with a denominator that is
/// not zero.
pub proof fn lemma_same_value_transitive(x: Ratio, y: Ratio, z: Ratio)
    requires
        y.wf(),
        x.same_value(y),
        y.same_value(z),
    ensures
        x.same_value(z),
{
    assert(x.num * z.den == z.num * x.den) by (nonlinear_arith)
        requires
            x.num * y.den == y.num * x.den,
            y.num * z.den == z.num * y.den,
            y.den > 0,
    ;
}

/// Two ratios in lowest terms with the same value are the same ratio.
pub proof fn lemma_lowest_terms_unique(x: Ratio, y: Ratio)
    requires
        x.wf(),
        y.wf(),
        x.in_lowest_terms(),
        y.in_lowest_terms(),
        x.same_value(y),
    ensures
        x == y,
{
    let p = abs(x.num);
    let q = abs(y.num);
    assert(p * y.den == q * x.den) by (nonlinear_arith)
        requires
            x.num * y.den == y.num * x.den,
            p == (if x.num < 0 {
                -x.num
            } else {
                x.num
            }),
            q == (if y.num < 0 {
                -y.num
            } else {
                y.num
            }),
            x.den > 0,
            y.den > 0,
    ;
    // x.den divides p * y.den and shares nothing with p, so it divides y.den.
    lemma_divides_multiple(x.den, q);
    lemma_divides_coprime_factor(x.den, p, y.den);
    lemma_divides_multiple(y.den, p);
    assert(q * x.den == p * y.den);
    lemma_divides_coprime_factor(y.den, q, x.den);
    lemma_divides_antisymmetric(x.den, y.den);
    assert(x.num == y.num) by (nonlinear_arith)
        requires
            x.num * y.den == y.num * x.den,
            x.den == y.den,
            x.den > 0,
    ;
}

/// Ratios with the same value have the same simplified form.
pub proof fn lemma_simplified_canonical(a: Ratio, b: Ratio)
    requires
        a.wf(),
        b.wf(),
        a.same_value(b),
    ensures
        a.simplified() == b.simplified(),
{
    lemma_simplified(a);
    lemma_simplified(b);
    lemma_same_value_transitive(a.simplified(), a, b);
    assert(b.same_value(b.simplified()));
    lemma_same_value_transitive(a.simplified(), b, b.simplified());
    lemma_lowest_terms_unique(a.simplified(), b.simplified());
}

/// The reciprocal of the reciprocal of a ratio that is not zero is the
/// ratio itself, and so has its simplified form.
pub proof fn lemma_reciprocal_involution(r: Ratio)
    requires
        r.wf(),
        r.num != 0,
    ensures
        r.reciprocal().wf(),
        r.reciprocal().reciprocal() == r,
        r.reciprocal().reciprocal().simplified() == r.simplified(),
{
}

/// A ratio times its reciprocal has the value one.
pub proof fn lemma_reciprocal_inverts(r: Ratio)
    requires
        r.wf(),
        r.num != 0,
    ensures
        r.times(r.reciprocal()).same_value(Ratio { num: 1, den: 1 }),
{
    let m = abs(r.num);
    let p = r.times(r.reciprocal());
    assert(p.num == r.den * m) by (nonlinear_arith)
        requires
            r.num < 0 ==> p.num == r.num * (-(r.den as int)) && m == -r.num,
            r.num >= 0 ==> p.num == r.num * r.den && m == r.num,
    ;
}

/// Dividing is multiplying by the reciprocal.
pub proof fn lemma_divided_by_is_times_reciprocal(a: Ratio, b: Ratio)
    ensures
        a.divided_by(b) == a.times(b.reciprocal()),
{
    assert(a.num * (-(b.den as int)) == -(a.num * b.den)) by (nonlinear_arith);
}

/// The sum and the difference of two ratios have positive denominators
/// and the values that cross-multiplying gives.
pub proof fn lemma_plus_minus_value(a: Ratio, b: Ratio)
    requires
        a.wf(),
        b.wf(),
    ensures
        a.plus(b).wf(),
        a.minus(b).wf(),
        a.plus(b).same_value(Ratio { num: a.num * b.den + b.num * a.den, den: a.den * b.den }),
        a.minus(b).same_value(Ratio { num: a.num * b.den - b.num * a.den, den: a.den * b.den }),
{
    let l = lcm(a.den, b.den);
    let j = l / a.den;
    let k = l / b.den;
    lemma_lcm_cofactors(a.den, b.den);
    assert(l == a.den * j && l == b.den * k);
    assert((a.num * j + b.num * k) * (a.den * b.den) == (a.num * b.den + b.num * a.den) * l)
        by (nonlinear_arith)
        requires
            l == a.den * j,
            l == b.den * k,
    ;
    assert((a.num * j - b.num * k) * (a.den * b.den) == (a.num * b.den - b.num * a.den) * l)
        by (nonlinear_arith)
        requires
            l == a.den * j,
            l == b.den * k,
    ;
}

/// Adding does not depend on the order of the operands.
pub proof fn lemma_plus_commutative(a: Ratio, b: Ratio)
    ensures
        a.plus(b) == b.plus(a),
{
    lemma_lcm_commutative(a.den, b.den);
}

/// Adding a ratio and taking it away again leaves the value of the first:
/// the result has the simplified form of the first.
pub proof fn lemma_plus_minus_cancel(a: Ratio, b: Ratio)
    requires
        a.wf(),
        b.wf(),
    ensures
        a.plus(b).minus(b).wf(),
        a.plus(b).minus(b).same_value(a),
        a.plus(b).minus(b).simplified() == a.simplified(),
{
    let s = a.plus(b);
    let t = s.minus(b);
    lemma_plus_minus_value(a, b);
    lemma_plus_minus_value(s, b);
    let l = s.den;
    let j = l / a.den;
    let k = l / b.den;
    lemma_lcm_cofactors(a.den, b.den);
    let m = t.den;
    let c = m / l;
    let e = m / b.den;
    lemma_lcm_cofactors(l, b.den);
    assert(m == l * c && m == b.den * e);
    assert(k * c == e) by (nonlinear_arith)
        requires
            l == b.den * k,
            m == l * c,
            m == b.den * e,
            b.den > 0,
    ;
    assert(t.num == (a.num * j + b.num * k) * c - b.num * e);
    assert(t.num * a.den == a.num * m) by (nonlinear_arith)
        requires
            t.num == (a.num * j + b.num * k) * c - b.num * e,
            k * c == e,
            l == a.den * j,
            m == l * c,
    ;
    lemma_simplified_canonical(t, a);
}

} // verus!
