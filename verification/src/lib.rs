//! Decision logic of a Python package manager.
//!
//! Everything here works on plain values: lines of text, folder names, version
//! numbers, release descriptions. Reading files, running Python and talking to
//! the package index are left to the program around this library.

pub mod alias;
pub mod config;
pub mod environment;
pub mod lines;
pub mod packages;
pub mod pattern;
pub mod project;
pub mod readback;
pub mod sync;
pub mod text;
pub mod version;
pub mod wheel;
