//! What a compute backend can do, and the rules that every backend shares.
pub mod capability;
pub mod decode;
