//! Division of fractions.

use crate::types::fraction::error::{FractionError, DENOMINATOR_ZERO, OVERFLOW};
use crate::types::fraction::fraction::{lemma_wide_product, magnitude, narrow, Fraction};
use std::ops::Div;
use vstd::prelude::*;

verus! {

impl Div for Fraction {
    type Output = Result<Fraction, FractionError>;

    /// The numerator times the divisor's denominator, over the
    /// denominator times the divisor's absolute numerator, with the
    /// divisor's sign moved to the new numerator; not simplified. Division
    /// by a fraction of value zero gives the error for a denominator of
    /// zero.
    fn div(self, rhs: Self) -> (r: Self::Output)
        ensures
            match r {
                Ok(f) => self@.divided_by(rhs@).representable() && f@ == self@.divided_by(rhs@),
                Err(e) => !self@.divided_by(rhs@).representable() && e@ == (if self@.divided_by(
                    rhs@,
                ).den == 0 {
                    DENOMINATOR_ZERO@
                } else {
                    OVERFLOW@
                }),
            },
    {
        let divisor: usize = magnitude(rhs.numerator);
        proof {
            lemma_wide_product(self.numerator as int, rhs.denominator as int);
            lemma_wide_product(self.denominator as int, divisor as int);
        }
        let numerator: i128 = (self.numerator as i128) * (rhs.denominator as i128);
        let denominator: u128 = (self.denominator as u128) * (divisor as u128);
        if rhs.numerator < 0 {
            narrow(-numerator, denominator)
        } else {
            narrow(numerator, denominator)
        }
    }
}

/// The operator has no precondition. Its result may hold an error
/// message, so `div` states it in its own contract and claims no value
/// here.
impl vstd::std_specs::ops::DivSpecImpl for Fraction {
    open spec fn obeys_div_spec() -> bool {
        false
    }

    open spec fn div_req(self, rhs: Self) -> bool {
        true
    }

    open spec fn div_spec(self, rhs: Self) -> Self::Output {
        arbitrary()
    }
}

} // verus!
