//! Scanning, parsing and evaluation, one module per language or structure.

pub mod css;
pub mod dom;
pub mod js;
