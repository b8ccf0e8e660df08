//! The document tree that scripts reach through the host bridge.

pub mod api;
pub mod node;
