//! Multiplication of fractions.

use crate::types::fraction::error::{FractionError, DENOMINATOR_ZERO, OVERFLOW};
use crate::types::fraction::fraction::{lemma_wide_product, narrow, Fraction};
use std::ops::Mul;
use vstd::prelude::*;

verus! {

impl Mul for Fraction {
    type Output = Result<Fraction, FractionError>;

    /// The product of the numerators over the product of the
    /// denominators, not simplified; an error where that is no fraction.
    fn mul(self, rhs: Self) -> (r: Self::Output)
        ensures
            match r {
                Ok(f) => self@.times(rhs@).representable() && f@ == self@.times(rhs@),
                Err(e) => !self@.times(rhs@).representable() && e@ == (if self@.times(rhs@).den
                    == 0 {
                    DENOMINATOR_ZERO@
                } else {
                    OVERFLOW@
                }),
            },
    {
        proof {
            lemma_wide_product(self.numerator as int, rhs.numerator as int);
            lemma_wide_product(self.denominator as int, rhs.denominator as int);
        }
        let numerator: i128 = (self.numerator as i128) * (rhs.numerator as i128);
        let denominator: u128 = (self.denominator as u128) * (rhs.denominator as u128);
        narrow(numerator, denominator)
    }
}

/// The operator has no precondition. Its result may hold an error
/// message, so `mul` states it in its own contract and claims no value
/// here.
impl vstd::std_specs::ops::MulSpecImpl for Fraction {
    open spec fn obeys_mul_spec() -> bool {
        false
    }

    open spec fn mul_req(self, rhs: Self) -> bool {
        true
    }

    open spec fn mul_spec(self, rhs: Self) -> Self::Output {
        arbitrary()
    }
}

} // verus!
