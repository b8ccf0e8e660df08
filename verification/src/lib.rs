//! The scripting core of a small browser engine: scanners for CSS and for a
//! JavaScript subset, a recursive-descent parser, and a tree-walking
//! interpreter that reaches a document tree through a narrow host bridge.
//!
//! Every executable function carries a contract over a mathematical model of
//! its data, and the contracts are machine-checked.

pub mod renderer;
pub mod text;
pub mod ui;
