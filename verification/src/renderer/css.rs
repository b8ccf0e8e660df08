//! Style sheets: for now, their tokens.

pub mod token;
