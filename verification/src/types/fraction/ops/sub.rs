//! Subtraction of fractions.

use crate::types::fraction::divisibility::{lemma_lcm_cofactors, lemma_lcm_zero};
use crate::types::fraction::error::{FractionError, DENOMINATOR_ZERO, OVERFLOW};
use crate::types::fraction::fraction::{lemma_wide_product, narrow, Fraction};
use std::ops::Sub;
use vstd::prelude::*;

verus! {

impl Sub for Fraction {
    type Output = Result<Fraction, FractionError>;

    /// The difference over the least common multiple of the two denominators,
    /// not simplified; an error where that is no fraction.
    fn sub(self, rhs: Self) -> (r: Self::Output)
        ensures
            match r {
                Ok(f) => self@.minus(rhs@).representable() && f@ == self@.minus(rhs@),
                Err(e) => !self@.minus(rhs@).representable() && e@ == (if self@.minus(rhs@).den
                    == 0 {
                    DENOMINATOR_ZERO@
                } else {
                    OVERFLOW@
                }),
            },
    {
        proof {
            lemma_lcm_zero(self.denominator as nat);
            lemma_lcm_zero(rhs.denominator as nat);
            if self.denominator > 0 && rhs.denominator > 0 {
                lemma_lcm_cofactors(self.denominator as nat, rhs.denominator as nat);
            }
        }
        let common_denominator: usize = match Fraction::checked_lcm(
            self.denominator,
            rhs.denominator,
        ) {
            Some(l) => l,
            None => {
                return Err(FractionError::new(OVERFLOW));
            },
        };
        if common_denominator == 0 {
            return Err(FractionError::new(DENOMINATOR_ZERO));
        }
        let scale1: usize = common_denominator / self.denominator;
        let scale2: usize = common_denominator / rhs.denominator;
        proof {
            lemma_wide_product(self.numerator as int, scale1 as int);
            lemma_wide_product(rhs.numerator as int, scale2 as int);
        }
        let numerator1: i128 = (self.numerator as i128) * (scale1 as i128);
        let numerator2: i128 = (rhs.numerator as i128) * (scale2 as i128);
        match numerator1.checked_sub(numerator2) {
            Some(result_numerator) => narrow(result_numerator, common_denominator as u128),
            None => Err(FractionError::new(OVERFLOW)),
        }
    }
}

/// The operator has no precondition. Its result may hold an error
/// message, so `sub` states it in its own contract and claims no value
/// here.
impl vstd::std_specs::ops::SubSpecImpl for Fraction {
    open spec fn obeys_sub_spec() -> bool {
        false
    }

    open spec fn sub_req(self, rhs: Self) -> bool {
        true
    }

    open spec fn sub_spec(self, rhs: Self) -> Self::Output {
        arbitrary()
    }
}

} // verus!
