//! Helpers for building and decoding payload bytes.

pub mod cyclic;
pub mod fiddling;
pub mod packing;
