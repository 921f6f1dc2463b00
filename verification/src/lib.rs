//! A minimal HTTP server core: request parsing, connection framing, routing
//! and the job queue of the worker pool, with contracts that Verus proves.

pub mod handlers;
pub mod http;
pub mod json;
pub mod request;
pub mod response;
pub mod server;
pub mod text;
