//! The parsed request and the decoding of its body.

pub mod request;
