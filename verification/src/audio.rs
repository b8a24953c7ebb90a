//! The rolling sample window and what is built on it.

pub mod buffer;
pub mod codec;
pub mod encoder;
pub mod processor;
pub mod resample;
pub mod span;
