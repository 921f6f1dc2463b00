//! Errors and the parser of the request head.

pub mod parse_error;
pub mod parser;
