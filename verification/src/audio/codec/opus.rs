//! The Opus codec, as far as it is known without the encoder program: its
//! names, its kind, the bit rate it aims at and the rate it works at.

use crate::audio::codec::traits::CodecType;
use vstd::prelude::*;

verus! {

/// The rate that Opus works at, in samples per second. Audio at another
/// rate is resampled to it before encoding and from it after decoding.
pub const OPUS_SAMPLE_RATE: u32 = 48000;

/// The bit rate of the default codec, in kilobits per second.
pub const DEFAULT_BITRATE: u32 = 32;

/// The Opus codec at a bit rate.
#[derive(Debug, Clone, Copy, PartialEq, Eq, Structural)]
pub struct OpusCodec {
    bitrate: u32,
    sample_rate: u32,
}

impl OpusCodec {
    /// The bit rate that the codec aims at, in kilobits per second.
    pub closed spec fn kilobits(&self) -> u32 {
        self.bitrate
    }

    /// The rate that the codec works at, in samples per second.
    pub closed spec fn rate(&self) -> u32 {
        self.sample_rate
    }

    /// The codec at `bitrate` kilobits per second, working at 48000 samples
    /// per second.
    pub fn new(bitrate: u32) -> (r: Self)
        ensures
            r.kilobits() == bitrate,
            r.rate() == OPUS_SAMPLE_RATE,
    {
        OpusCodec { bitrate, sample_rate: OPUS_SAMPLE_RATE }
    }

    /// The bit rate that the codec aims at, in kilobits per second.
    pub fn bitrate(&self) -> (r: u32)
        ensures
            r == self.kilobits(),
    {
        self.bitrate
    }

    /// The rate that the codec works at, in samples per second.
    pub fn sample_rate(&self) -> (r: u32)
        ensures
            r == self.rate(),
    {
        self.sample_rate
    }

    /// The bit rate that the codec aims at: it always has one.
    pub fn target_bitrate(&self) -> (r: Option<u32>)
        ensures
            r == Some(self.kilobits()),
    {
        Some(self.bitrate)
    }

    /// The name of the codec: "OPUS".
    pub fn name(&self) -> (r: &'static str)
        ensures
            r@ == "OPUS"@,
    {
        "OPUS"
    }

    /// The MIME type of Opus: "audio/opus".
    pub fn mime_type(&self) -> (r: &'static str)
        ensures
            r@ == "audio/opus"@,
    {
        "audio/opus"
    }

    /// The extension of an Opus file: "opus".
    pub fn extension(&self) -> (r: &'static str)
        ensures
            r@ == "opus"@,
    {
        "opus"
    }

    /// The kind of the codec: Opus is lossy.
    pub fn codec_type(&self) -> (r: CodecType)
        ensures
            r == CodecType::Lossy,
    {
        CodecType::Lossy
    }
}

impl Default for OpusCodec {
    /// The codec at 32 kilobits per second.
    fn default() -> (r: Self)
        ensures
            r.kilobits() == DEFAULT_BITRATE,
            r.rate() == OPUS_SAMPLE_RATE,
    {
        OpusCodec { bitrate: DEFAULT_BITRATE, sample_rate: OPUS_SAMPLE_RATE }
    }
}

} // verus!
