//! The core of a single-route gateway that forwards client requests to one
//! upstream JSON/SSE API: admission of a request, its way through the gateway,
//! and the relay of an upstream event stream, chunk by chunk, as events.
//!
//! Everything here is plain computation. Waiting, reading and sending are left
//! to the caller, who reports what happened and is told what to do next.

pub mod config;
pub mod constants;
pub mod handlers;
pub mod limiter;
pub mod proxy;
pub mod reassembly;
pub mod sse;
pub mod text;
pub mod utils;
