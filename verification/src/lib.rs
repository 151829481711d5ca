//! A dual-role key remapper: a key that yields one key when tapped alone and
//! another while it is held together with other input.

pub mod config;
pub mod hook;
pub mod input;
pub mod keys;
pub mod laws;
pub mod remap;
pub mod text;
pub mod trace;
