//! What the device backend decides on the host: checks, launch shapes, buffer
//! sizes and cache keys.
pub mod attn;
pub mod backend;
pub mod error;
pub mod half_source;
pub mod matmul;
pub mod sampling;
pub mod scratch;

