//! Exploit-development workbench library: symbol resolution for ELF and PE
//! images, byte packing, cyclic patterns and small encoding helpers.

pub mod binary_handling;
pub mod command;
pub mod error;
pub mod gui;
pub mod lang;
pub mod misc;
pub mod name_map;
pub mod program_io;
pub mod recipe;
pub mod text;
pub mod utils;
