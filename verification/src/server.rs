//! Configuration, routing, the protocol of one connection and the job queue
//! of the worker pool.

pub mod connection;
pub mod server;
pub mod thread_pool;
