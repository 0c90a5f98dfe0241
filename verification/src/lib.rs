//! A small command surface for a desktop shell: a greeting formatter and two
//! lexical path helpers, each a pure function from strings to a string or a
//! named failure.

pub mod commands;
pub mod components;
pub mod greeting;
pub mod laws;
pub mod path;
pub mod text;

pub use commands::{get_filename, get_folder, greet, CommandError};
