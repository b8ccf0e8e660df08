//! The JavaScript subset: tokens, syntax tree and interpreter.

pub mod arithmetic;
pub mod ast;
pub mod runtime;
pub mod scope;
pub mod token;
