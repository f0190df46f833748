//! A second Swift emitter: plain Swift types with optional JSON serialization.
pub mod emitter;
