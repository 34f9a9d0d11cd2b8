//! Failure values and input validation.

pub mod error;
pub mod validation;
