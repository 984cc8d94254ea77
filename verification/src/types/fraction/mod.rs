//! Fractions of machine integers, and the number theory behind them.
//!
//! - `fraction`: the `Fraction` type, its constructor and its methods.
//! - `ops`: the operators `+ - * /`.
//! - `error`: the error that they report.
//! - `ratio`: the mathematical model that the contracts speak of.
//! - `laws`: what holds of the model's operations.
//! - `divisibility`: greatest common divisors and least common multiples.
//! - `decimal`: decimal notation.

pub mod decimal;
pub mod divisibility;
pub mod error;
pub mod fraction;
pub mod laws;
pub mod ops;
pub mod ratio;
