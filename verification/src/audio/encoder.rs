//! Encoders by output format: each has a MIME type and the value of the
//! `Content-Disposition` header that its output goes out under.

use crate::audio::codec::pcm::{le_bytes_u32, u32_to_le};
use crate::audio::codec::wav::{encoded, representable, WavCodec};
use crate::error::CodecError;
use vstd::prelude::*;

verus! {

/// Raw samples: the four bytes of each, one after the other.
#[derive(Debug, Clone, Copy, PartialEq, Eq, Structural)]
pub struct PcmEncoder;

/// The words, four bytes each, least significant byte first: byte `k`
/// belongs to word `k / 4` and is byte `k % 4` of it.
pub open spec fn raw_bytes(words: Seq<u32>) -> Seq<u8> {
    Seq::new(4 * words.len(), |k: int| le_bytes_u32(words[k / 4])[k % 4])
}

impl PcmEncoder {
    /// The bytes of `data`, where each item is the bit pattern of one
    /// sample. The rate is not looked at.
    pub fn encode(&self, data: &[u32], sample_rate: u32) -> (r: Result<Vec<u8>, CodecError>)
        ensures
            r is Ok,
            r->Ok_0@ == raw_bytes(data@),
    {
        let n: usize = data.len();
        let mut bytes: Vec<u8> = Vec::new();
        let mut i: usize = 0;
        assert(bytes@ =~= raw_bytes(data@.take(0)));
        while i < n
            invariant
                i <= n,
                n == data@.len(),
                bytes@ == raw_bytes(data@.take(i as int)),
            decreases n - i,
        {
            let word: [u8; 4] = u32_to_le(data[i]);
            bytes.push(word[0]);
            bytes.push(word[1]);
            bytes.push(word[2]);
            bytes.push(word[3]);
            i = i + 1;
            proof {
                let prev = data@.take(i - 1);
                let next = data@.take(i as int);
                assert(next[i - 1] == data@[i - 1]);
                assert forall|k: int| 0 <= k < 4 * (i - 1) implies raw_bytes(prev)[k] == raw_bytes(
                    next,
                )[k] by {
                    assert(prev[k / 4] == next[k / 4]);
                }
                assert(bytes@ =~= raw_bytes(next));
            }
        }
        assert(data@.take(n as int) =~= data@);
        Ok(bytes)
    }

    /// The MIME type of raw samples: "audio/pcm".
    pub fn mime_type(&self) -> (r: &'static str)
        ensures
            r@ == "audio/pcm"@,
    {
        "audio/pcm"
    }

    /// The header value for a download of raw samples.
    pub fn content_disposition(&self) -> (r: &'static str)
        ensures
            r@ == "attachment; filename=\"audio.pcm\""@,
    {
        "attachment; filename=\"audio.pcm\""
    }
}

/// WAV files of 16-bit samples.
#[derive(Debug, Clone, Copy, PartialEq, Eq, Structural)]
pub struct WavEncoder;

impl WavEncoder {
    /// The WAV file that holds `data` at `sample_rate`, 16 bits a sample.
    pub fn encode(&self, data: &[i32], sample_rate: u32) -> (r: Result<Vec<u8>, CodecError>)
        ensures
            representable(16, data@.len(), sample_rate) ==> r is Ok && r->Ok_0@ == encoded(
                16,
                data@,
                sample_rate,
            ),
            !representable(16, data@.len(), sample_rate) ==> r is Err,
    {
        let codec: WavCodec = WavCodec::default();
        codec.encode_samples(data, sample_rate)
    }

    /// The MIME type of WAV: "audio/wav".
    pub fn mime_type(&self) -> (r: &'static str)
        ensures
            r@ == "audio/wav"@,
    {
        "audio/wav"
    }

    /// The header value for a download of a WAV file.
    pub fn content_disposition(&self) -> (r: &'static str)
        ensures
            r@ == "attachment; filename=\"audio.wav\""@,
    {
        "attachment; filename=\"audio.wav\""
    }
}

/// FLAC files, which an encoder program makes of a WAV file.
#[derive(Debug, Clone, Copy, PartialEq, Eq, Structural)]
pub struct FlacEncoder;

impl FlacEncoder {
    /// The MIME type of FLAC: "audio/flac".
    pub fn mime_type(&self) -> (r: &'static str)
        ensures
            r@ == "audio/flac"@,
    {
        "audio/flac"
    }

    /// The header value for a download of a FLAC file.
    pub fn content_disposition(&self) -> (r: &'static str)
        ensures
            r@ == "attachment; filename=\"audio.flac\""@,
    {
        "attachment; filename=\"audio.flac\""
    }
}

/// Opus streams at a bit rate, which an encoder program makes of a WAV
/// file.
#[derive(Debug, Clone, Copy, PartialEq, Eq, Structural)]
pub struct OpusEncoder {
    bitrate: u32,
}

impl OpusEncoder {
    /// The bit rate that the encoder aims at, in kilobits per second.
    pub closed spec fn kilobits(&self) -> u32 {
        self.bitrate
    }

    /// The encoder at `bitrate` kilobits per second.
    pub fn new(bitrate: u32) -> (r: Self)
        ensures
            r.kilobits() == bitrate,
    {
        OpusEncoder { bitrate }
    }

    /// The bit rate that the encoder aims at, in kilobits per second.
    pub fn bitrate(&self) -> (r: u32)
        ensures
            r == self.kilobits(),
    {
        self.bitrate
    }

    /// The MIME type of an Opus stream in an Ogg container: "audio/ogg".
    pub fn mime_type(&self) -> (r: &'static str)
        ensures
            r@ == "audio/ogg"@,
    {
        "audio/ogg"
    }

    /// The header value for a download of an Opus stream.
    pub fn content_disposition(&self) -> (r: &'static str)
        ensures
            r@ == "attachment; filename=\"audio.opus\""@,
    {
        "attachment; filename=\"audio.opus\""
    }
}

} // verus!
