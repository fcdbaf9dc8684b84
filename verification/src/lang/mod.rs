//! The expression language of command parameters.

pub mod ast;
