//! The command line's own rules.
pub mod error;
pub mod parser;
