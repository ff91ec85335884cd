//! The integer core of an inference engine for DeepSeek V4 and Qwen 3.6 style
//! models: wire formats, weight layouts, caches, launch plans and the
//! decisions of the forward passes, each stated as a contract and proved.
//!
//! Floating-point values are carried as their bit patterns. The library moves
//! them, lays them out, orders them and routes them; it never rounds.
pub mod attention;
pub mod backend;
pub mod cpu;
pub mod cuda;
pub mod engines;
pub mod fbits;
pub mod keyed;
pub mod tensor;
pub mod text;
pub mod words;
