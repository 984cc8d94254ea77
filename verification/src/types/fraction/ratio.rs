//! The mathematical model of a fraction: a quotient of unbounded integers,
//! with the operations stated on it.

use crate::types::fraction::decimal::{decimal, signed_decimal};
use crate::types::fraction::divisibility::{
    gcd, lcm, lemma_gcd_bounds, lemma_gcd_of_quotients, lemma_gcd_zero,
};
use vstd::math::abs;
use vstd::prelude::*;

verus! {

/// A numerator over a denominator, neither bounded by a machine type. Two
/// ratios are equal when both parts are: `2/4` is not `1/2`.
pub struct Ratio {
    pub num: int,
    pub den: nat,
}

impl Ratio {
    /// The denominator is not zero.
    pub open spec fn wf(self) -> bool {
        self.den > 0
    }

    /// Both parts fit the machine types of a fraction, and the denominator
    /// is not zero.
    pub open spec fn representable(self) -> bool {
        &&& isize::MIN <= self.num <= isize::MAX
        &&& 0 < self.den <= usize::MAX
    }

    /// Both ratios stand for the same rational number.
    pub open spec fn same_value(self, other: Ratio) -> bool {
        self.num * other.den == other.num * self.den
    }

    /// No common divisor but one is left in the two parts.
    pub open spec fn in_lowest_terms(self) -> bool {
        gcd(abs(self.num), self.den) == 1
    }

    /// Both parts divided by their greatest common divisor; the sign stays
    /// with the numerator. Zero becomes `0/1`.
    pub open spec fn simplified(self) -> Ratio
        recommends
            self.wf(),
    {
        let g = gcd(abs(self.num), self.den);
        Ratio {
            num: if self.num < 0 {
                -(abs(self.num) / g)
            } else {
                self.num / (g as int)
            },
            den: self.den / g,
        }
    }

    /// The parts exchanged; the sign stays with the numerator.
    pub open spec fn reciprocal(self) -> Ratio {
        Ratio {
            num: if self.num < 0 {
                -(self.den as int)
            } else {
                self.den as int
            },
            den: abs(self.num),
        }
    }

    /// The numerator and the denominator in decimal notation, with a
    /// slash between them.
    pub open spec fn text(self) -> Seq<char> {
        signed_decimal(self.num) + seq!['/'] + decimal(self.den)
    }

    /// The sum over the least common multiple of the denominators.
    pub open spec fn plus(self, rhs: Ratio) -> Ratio {
        let l = lcm(self.den, rhs.den);
        Ratio { num: self.num * (l / self.den) + rhs.num * (l / rhs.den), den: l }
    }

    /// The difference over the least common multiple of the denominators.
    pub open spec fn minus(self, rhs: Ratio) -> Ratio {
        let l = lcm(self.den, rhs.den);
        Ratio { num: self.num * (l / self.den) - rhs.num * (l / rhs.den), den: l }
    }

    /// The product of the numerators over the product of the denominators.
    pub open spec fn times(self, rhs: Ratio) -> Ratio {
        Ratio { num: self.num * rhs.num, den: self.den * rhs.den }
    }

    /// The quotient: the divisor's parts change sides, and its sign goes
    /// to the numerator. The denominator is zero when the divisor is.
    pub open spec fn divided_by(self, rhs: Ratio) -> Ratio {
        Ratio {
            num: if rhs.num < 0 {
                -(self.num * rhs.den)
            } else {
                self.num * rhs.den
            },
            den: self.den * abs(rhs.num),
        }
    }
}

/// What simplifying gives: both parts are the old ones divided exactly by
/// their greatest common divisor, the denominator stays positive, the
/// value stays, and the result is in lowest terms.
pub proof fn lemma_simplified(r: Ratio)
    requires
        r.wf(),
    ensures
        r.simplified().wf(),
        r.simplified().num * gcd(abs(r.num), r.den) == r.num,
        r.simplified().den * gcd(abs(r.num), r.den) == r.den,
        abs(r.simplified().num) == abs(r.num) / gcd(abs(r.num), r.den),
        r.simplified().same_value(r),
        r.simplified().in_lowest_terms(),
{
    let m = abs(r.num);
    let g = gcd(m, r.den);
    let s = r.simplified();
    lemma_gcd_bounds(m, r.den);
    lemma_gcd_of_quotients(m, r.den);
    assert(m / g >= 0 && r.den / g > 0) by (nonlinear_arith)
        requires
            g > 0,
            m >= 0,
            r.den == (r.den / g) * g,
            r.den > 0,
    ;
    assert(abs(s.num) == m / g);
    assert(s.num * g == r.num) by (nonlinear_arith)
        requires
            m == (m / g) * g,
            r.num < 0 ==> s.num == -(m / g) && r.num == -m,
            r.num >= 0 ==> s.num == m / g && r.num == m,
    ;
    assert(s.num * r.den == r.num * s.den) by (nonlinear_arith)
        requires
            s.num * g == r.num,
            s.den * g == r.den,
    ;
}

/// A ratio in lowest terms is its own simplified form.
pub proof fn lemma_simplified_of_lowest_terms(r: Ratio)
    requires
        r.in_lowest_terms(),
    ensures
        r.simplified() == r,
{
}

/// Simplifying twice gives what simplifying once gives.
pub proof fn lemma_simplified_idempotent(r: Ratio)
    requires
        r.wf(),
    ensures
        r.simplified().simplified() == r.simplified(),
{
    lemma_simplified(r);
    lemma_simplified_of_lowest_terms(r.simplified());
}

/// Zero over any denominator simplifies to `0/1`.
pub proof fn lemma_simplified_zero(r: Ratio)
    requires
        r.wf(),
        r.num == 0,
    ensures
        r.simplified() == (Ratio { num: 0, den: 1 }),
{
    lemma_gcd_zero(r.den);
    assert(r.den / r.den == 1 && 0int / (r.den as int) == 0) by (nonlinear_arith)
        requires
            r.den > 0,
    ;
}

} // verus!
