//! The four arithmetic operators on fractions.
//!
//! Each takes both operands by value and gives a new fraction, not
//! simplified. Each computes its result over wide integers and checks it:
//! where the denominator comes out zero the result is the error for a
//! denominator of zero, and where a part does not fit its machine type it
//! is the error for an overflow. Nothing wraps and nothing saturates.

pub mod add;
pub mod div;
pub mod mul;
pub mod sub;
