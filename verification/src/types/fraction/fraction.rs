//! `Fraction` is a struct representing a mathematical fraction
//!
//! A `Fraction` consists of a numerator and a denominator, and
//! provides various methods to perform operations.

use crate::types::fraction::decimal::{append_decimal, signed_decimal};
use crate::types::fraction::divisibility::{
    gcd, is_greatest_common_divisor, is_least_common_multiple, lcm, lemma_gcd_characterization,
    lemma_lcm_characterization, lemma_lcm_gcd_product,
};
use crate::types::fraction::error::{FractionError, DENOMINATOR_ZERO, OVERFLOW};
use crate::types::fraction::ratio::{lemma_simplified, lemma_simplified_zero, Ratio};
use vstd::math::abs;
use vstd::prelude::*;
use vstd::string::StringExecFns;

verus! {

/// A signed numerator over an unsigned denominator. It is kept as given:
/// nothing reduces it to lowest terms but `simplify`.
#[derive(Debug, PartialEq, Eq, Structural)]
pub struct Fraction {
    pub numerator: isize,
    pub denominator: usize,
}

impl Clone for Fraction {
    fn clone(&self) -> (copy: Self)
        ensures
            copy == *self,
    {
        Fraction { numerator: self.numerator, denominator: self.denominator }
    }
}

impl View for Fraction {
    type V = Ratio;

    open spec fn view(&self) -> Ratio {
        Ratio { num: self.numerator as int, den: self.denominator as nat }
    }
}

impl Fraction {
    /// The denominator is not zero.
    pub open spec fn wf(&self) -> bool {
        self.denominator > 0
    }

    /// A fraction of the two values as given, or the error for a
    /// denominator of zero.
    pub fn new(numerator: isize, denominator: usize) -> (r: Result<Fraction, FractionError>)
        ensures
            match r {
                Ok(f) => denominator != 0 && f.numerator == numerator && f.denominator
                    == denominator,
                Err(e) => denominator == 0 && e@ == DENOMINATOR_ZERO@,
            },
    {
        if denominator == 0 {
            return Err(FractionError::new(DENOMINATOR_ZERO));
        }
        Ok(Fraction { numerator, denominator })
    }

    /// The greatest common divisor of `a` and `b`, by Euclid's algorithm.
    /// With zero it is the other number.
    pub fn gcd(a: usize, b: usize) -> (g: usize)
        ensures
            g == gcd(a as nat, b as nat),
            is_greatest_common_divisor(a as nat, b as nat, g as nat),
    {
        let mut x: usize = a;
        let mut y: usize = b;
        while y != 0
            invariant
                gcd(x as nat, y as nat) == gcd(a as nat, b as nat),
            decreases y,
        {
            let temp: usize = y;
            y = x % y;
            x = temp;
        }
        proof {
            lemma_gcd_characterization(a as nat, b as nat, x as nat);
        }
        x
    }

    /// The least common multiple of `a` and `b`, or `None` where a `usize`
    /// cannot hold it. It is `0` as soon as one argument is.
    pub fn checked_lcm(a: usize, b: usize) -> (r: Option<usize>)
        ensures
            match r {
                Some(l) => l == lcm(a as nat, b as nat),
                None => lcm(a as nat, b as nat) > usize::MAX,
            },
    {
        let g: usize = Fraction::gcd(a, b);
        if g == 0 {
            return Some(0);
        }
        a.checked_mul(b / g)
    }

    /// The least common multiple of `a` and `b`, as `a * (b / gcd(a, b))`.
    /// It is `0` as soon as one argument is, for two zeros too.
    pub fn lcm(a: usize, b: usize) -> (l: usize)
        requires
            lcm(a as nat, b as nat) <= usize::MAX,
        ensures
            l == lcm(a as nat, b as nat),
            is_least_common_multiple(a as nat, b as nat, l as nat),
            l * gcd(a as nat, b as nat) == a * b,
    {
        let g: usize = Fraction::gcd(a, b);
        proof {
            lemma_lcm_characterization(a as nat, b as nat, lcm(a as nat, b as nat));
            lemma_lcm_gcd_product(a as nat, b as nat);
        }
        if g == 0 {
            return 0;
        }
        a * (b / g)
    }

    /// The fraction with the parts exchanged and the sign kept on the
    /// numerator: the error for a denominator of zero where the numerator
    /// is zero, the error for an overflow where the old denominator does
    /// not fit the numerator's type.
    pub fn reciprocal(&self) -> (r: Result<Fraction, FractionError>)
        ensures
            match r {
                Ok(f) => self@.reciprocal().representable() && f@ == self@.reciprocal(),
                Err(e) => !self@.reciprocal().representable() && e@ == (if self.numerator == 0 {
                    DENOMINATOR_ZERO@
                } else {
                    OVERFLOW@
                }),
            },
    {
        if self.numerator == 0 {
            return Err(FractionError::new(DENOMINATOR_ZERO));
        }
        let denominator: usize = magnitude(self.numerator);
        match with_sign(self.numerator < 0, self.denominator) {
            Some(numerator) => Ok(Fraction { numerator, denominator }),
            None => Err(FractionError::new(OVERFLOW)),
        }
    }

    /// Divides both parts by their greatest common divisor, in place; the
    /// sign stays with the numerator. Zero becomes `0/1`.
    pub fn simplify(&mut self)
        requires
            old(self).wf(),
        ensures
            final(self)@ == old(self)@.simplified(),
            final(self).numerator * gcd(abs(old(self).numerator as int), old(self).denominator as nat)
                == old(self).numerator,
            final(self).denominator * gcd(
                abs(old(self).numerator as int),
                old(self).denominator as nat,
            ) == old(self).denominator,
            final(self).wf(),
            final(self)@.same_value(old(self)@),
            final(self)@.in_lowest_terms(),
            old(self).numerator == 0 ==> final(self).numerator == 0 && final(self).denominator
                == 1,
            old(self)@.in_lowest_terms() ==> *final(self) == *old(self),
    {
        let m: usize = magnitude(self.numerator);
        let g: usize = Fraction::gcd(m, self.denominator);
        proof {
            lemma_simplified(self@);
            if self.numerator == 0 {
                lemma_simplified_zero(self@);
            }
        }
        // The quotient of the absolute value is no larger than the
        // absolute value, so the sign can go back on it.
        if self.numerator < 0 {
            self.numerator = negated(m / g);
        } else {
            self.numerator = (m / g) as isize;
        }
        self.denominator = self.denominator / g;
        proof {
            let before = old(self)@;
            let after = self@;
            assert(g == 1 ==> after == before) by (nonlinear_arith)
                requires
                    after.num * g == before.num,
                    after.den * g == before.den,
            ;
        }
    }

    /// The fraction as text: numerator, slash, denominator, as they are.
    pub fn to_string(&self) -> (s: String)
        ensures
            s@ == self@.text(),
    {
        let mut s: String = String::new();
        proof {
            reveal_strlit("-");
            reveal_strlit("/");
        }
        if self.numerator < 0 {
            s.append("-");
        }
        append_decimal(&mut s, magnitude(self.numerator));
        assert(s@ =~= signed_decimal(self.numerator as int));
        s.append("/");
        append_decimal(&mut s, self.denominator);
        assert(s@ =~= self@.text());
        s
    }
}

/// The absolute value of `n`, which a `usize` always holds.
pub(crate) fn magnitude(n: isize) -> (m: usize)
    ensures
        m == abs(n as int),
{
    if n >= 0 {
        n as usize
    } else {
        // -(n + 1) cannot overflow, where -n can.
        (-(n + 1)) as usize + 1
    }
}

/// `-m`, for an `m` that is at most the absolute value of `isize::MIN`.
pub(crate) fn negated(m: usize) -> (v: isize)
    requires
        m <= isize::MAX + 1,
    ensures
        v == -(m as int),
{
    if m == 0 {
        0
    } else {
        // m - 1 fits an isize, where m may not.
        -((m - 1) as isize) - 1
    }
}

/// `m` or, where `negative`, `-m`; `None` where an `isize` cannot hold
/// it.
pub(crate) fn with_sign(negative: bool, m: usize) -> (r: Option<isize>)
    ensures
        match r {
            Some(v) => v == (if negative {
                -(m as int)
            } else {
                m as int
            }),
            None => if negative {
                -(m as int) < isize::MIN
            } else {
                m > isize::MAX
            },
        },
{
    if negative {
        if m <= isize::MAX as usize + 1 {
            Some(negated(m))
        } else {
            None
        }
    } else if m <= isize::MAX as usize {
        Some(m as isize)
    } else {
        None
    }
}

/// The fraction `n / d` where the machine types hold both parts and `d` is
/// not zero; else the error for a denominator of zero where `d` is zero,
/// and the error for an overflow where it is not.
pub(crate) fn narrow(n: i128, d: u128) -> (r: Result<Fraction, FractionError>)
    ensures
        match r {
            Ok(f) => (Ratio { num: n as int, den: d as nat }).representable() && f@ == (Ratio {
                num: n as int,
                den: d as nat,
            }),
            Err(e) => !(Ratio { num: n as int, den: d as nat }).representable() && e@ == (if d
                == 0 {
                DENOMINATOR_ZERO@
            } else {
                OVERFLOW@
            }),
        },
{
    if d == 0 {
        return Err(FractionError::new(DENOMINATOR_ZERO));
    }
    if d > usize::MAX as u128 || n > isize::MAX as i128 || n < isize::MIN as i128 {
        return Err(FractionError::new(OVERFLOW));
    }
    Ok(Fraction { numerator: n as isize, denominator: d as usize })
}

/// The product of two 64-bit values, of either sign, fits 128 bits.
pub(crate) proof fn lemma_wide_product(x: int, y: int)
    requires
        -0x8000_0000_0000_0000 <= x <= 0xffff_ffff_ffff_ffff,
        -0x8000_0000_0000_0000 <= y <= 0xffff_ffff_ffff_ffff,
    ensures
        x >= 0 && y >= 0 ==> 0 <= x * y <= u128::MAX,
        x <= 0x7fff_ffff_ffff_ffff || y <= 0x7fff_ffff_ffff_ffff ==> i128::MIN < x * y
            <= i128::MAX,
{
    assert(x >= 0 && y >= 0 ==> 0 <= x * y <= 0xffff_ffff_ffff_ffff * 0xffff_ffff_ffff_ffff)
        by (nonlinear_arith)
        requires
            -0x8000_0000_0000_0000 <= x <= 0xffff_ffff_ffff_ffff,
            -0x8000_0000_0000_0000 <= y <= 0xffff_ffff_ffff_ffff,
    ;
    assert(x <= 0x7fff_ffff_ffff_ffff || y <= 0x7fff_ffff_ffff_ffff ==> -0x8000_0000_0000_0000
        * 0xffff_ffff_ffff_ffff <= x * y <= 0x8000_0000_0000_0000 * 0xffff_ffff_ffff_ffff)
        by (nonlinear_arith)
        requires
            -0x8000_0000_0000_0000 <= x <= 0xffff_ffff_ffff_ffff,
            -0x8000_0000_0000_0000 <= y <= 0xffff_ffff_ffff_ffff,
    ;
}

} // verus!
