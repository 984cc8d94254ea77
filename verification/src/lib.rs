//! # Crabmath: General Use Mathematics Library
//!
//! Exact rational arithmetic on machine integers. Every operation states
//! its result over the mathematical integers, and reports an error where
//! that result cannot be held in the machine types.

pub mod types;
