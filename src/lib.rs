//! Compilation of message token streams into ICU MessageFormat descriptors.

pub mod text;
pub mod whitespace;
pub mod tokens;
pub mod builder;
pub mod generate_id;
pub mod descriptor;
pub mod options;
pub mod pattern;
pub mod choice;
