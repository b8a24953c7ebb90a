//! Codecs: what turns buffered samples into bytes and back.

pub mod flac;
pub mod opus;
pub mod pcm;
pub mod registry;
pub mod traits;
pub mod wav;
