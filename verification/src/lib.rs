//! Audio ingestion and buffering: a fixed-capacity ring of samples, the
//! arithmetic of a sample-rate change, and a bit-exact WAV container.

pub mod audio;
pub mod error;
pub mod config;
pub mod server;
