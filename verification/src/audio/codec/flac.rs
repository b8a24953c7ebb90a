//! The FLAC codec, as far as it is known without the encoder program: its
//! names and its kind. The program is handed a WAV file of 16-bit samples
//! and hands one back.

use crate::audio::codec::traits::CodecType;
use vstd::prelude::*;

verus! {

/// The FLAC codec.
#[derive(Debug, Clone, Copy, PartialEq, Eq, Structural)]
pub struct FlacCodec;

impl FlacCodec {
    /// The width of the samples of the WAV file that goes to the encoder
    /// program and comes from the decoder.
    pub const INTERMEDIATE_BITS: u16 = 16;

    /// The name of the codec: "FLAC".
    pub fn name(&self) -> (r: &'static str)
        ensures
            r@ == "FLAC"@,
    {
        "FLAC"
    }

    /// The MIME type of FLAC: "audio/flac".
    pub fn mime_type(&self) -> (r: &'static str)
        ensures
            r@ == "audio/flac"@,
    {
        "audio/flac"
    }

    /// The extension of a FLAC file: "flac".
    pub fn extension(&self) -> (r: &'static str)
        ensures
            r@ == "flac"@,
    {
        "flac"
    }

    /// The kind of the codec: FLAC is lossless.
    pub fn codec_type(&self) -> (r: CodecType)
        ensures
            r == CodecType::Lossless,
    {
        CodecType::Lossless
    }
}

impl Default for FlacCodec {
    fn default() -> (r: Self)
        ensures
            r == FlacCodec,
    {
        FlacCodec
    }
}

} // verus!
