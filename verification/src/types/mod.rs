//! The data types of the library.

pub mod fraction;

pub use fraction::error::FractionError;
pub use fraction::fraction::Fraction;
