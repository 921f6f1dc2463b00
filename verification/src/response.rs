//! What the server writes back.

pub mod response;
