//! What every codec offers: its names, its kind, and the two directions of
//! its work.

use crate::error::CodecError;
use vstd::prelude::*;
use vstd::string::StringExecFns;

verus! {

/// Whether a codec gives back exactly what it was given.
#[derive(Debug, Clone, Copy, PartialEq, Eq, Structural)]
pub enum CodecType {
    /// Information is given up for a smaller size.
    Lossy,
    /// What is decoded is what was encoded.
    Lossless,
}

/// A codec: it is known by a name, a MIME type and a file extension, it is
/// of exactly one kind, lossy or lossless, and it turns samples into bytes
/// and bytes into samples. Samples are integers on the scale of
/// `sample_bits` bits.
///
/// The service takes any codec that offers this. Of one that the library
/// does not hold, nothing is known but what its calls return.
pub trait Codec {
    /// The name of the codec.
    fn name(&self) -> &'static str;

    /// The MIME type of what the codec produces.
    fn mime_type(&self) -> &'static str;

    /// The extension of a file that holds what the codec produces, without a
    /// dot.
    fn extension(&self) -> &'static str;

    /// The kind of the codec.
    fn codec_type(&self) -> CodecType;

    /// The width in bits of the integer samples that the codec takes and
    /// gives.
    fn sample_bits(&self) -> u16;

    /// The bytes that hold `data`, taken at `sample_rate`.
    fn encode(&self, data: &[i32], sample_rate: u32) -> Result<Vec<u8>, CodecError>;

    /// The samples that `data` holds.
    fn decode(&self, data: &[u8], sample_rate: u32) -> Result<Vec<i32>, CodecError>;

    /// Whether the codec is lossy: whether that is the kind it gives.
    fn is_lossy(&self) -> (r: bool)
        ensures
            call_ensures(
                Self::codec_type,
                (self,),
                if r {
                    CodecType::Lossy
                } else {
                    CodecType::Lossless
                },
            ),
    {
        match self.codec_type() {
            CodecType::Lossy => true,
            CodecType::Lossless => false,
        }
    }

    /// Whether the codec is lossless: whether that is the kind it gives.
    fn is_lossless(&self) -> (r: bool)
        ensures
            call_ensures(
                Self::codec_type,
                (self,),
                if r {
                    CodecType::Lossless
                } else {
                    CodecType::Lossy
                },
            ),
    {
        match self.codec_type() {
            CodecType::Lossy => false,
            CodecType::Lossless => true,
        }
    }
}

/// A codec that gives back exactly what it was given.
pub trait LosslessCodec: Codec {

}

/// A codec that gives up information for a smaller size.
pub trait LossyCodec: Codec {
    /// The bit rate that the codec aims at, in kilobits per second, if it
    /// has one.
    fn target_bitrate(&self) -> Option<u32>;
}

/// The value of the `Content-Disposition` header for a download of bytes
/// with the file extension `suffix`.
pub open spec fn attachment(suffix: Seq<char>) -> Seq<char> {
    "attachment; filename=\"audio."@ + suffix + "\""@
}

/// The value of the `Content-Disposition` header for a download of bytes
/// with the file extension `extension`.
pub fn attachment_for(extension: &str) -> (r: String)
    ensures
        r@ == attachment(extension@),
{
    let mut r: String = String::from_str("attachment; filename=\"audio.");
    r.append(extension);
    r.append("\"");
    r
}

/// The value of the `Content-Disposition` header under which what `codec`
/// produces is handed out: that for the extension that the codec gives.
pub fn content_disposition<C: Codec>(codec: &C) -> (r: String)
    ensures
        exists|extension: &'static str|
            call_ensures(C::extension, (codec,), extension) && r@ == attachment(extension@),
{
    attachment_for(codec.extension())
}

/// How much smaller an encoding is than the samples it holds, as a
/// fraction: the bytes of the samples over the bytes of the encoding.
#[derive(Debug, Clone, Copy, PartialEq, Eq, Structural)]
pub struct CompressionRatio {
    /// The bytes that the samples take at four bytes each.
    pub raw_bytes: u128,
    /// The bytes that the encoding takes.
    pub encoded_bytes: u128,
}

/// The compression ratio of an encoding of `num_samples` samples.
pub fn compression_ratio_of(num_samples: usize, encoded: &[u8]) -> (r: CompressionRatio)
    ensures
        r.raw_bytes == num_samples * 4,
        r.encoded_bytes == encoded@.len(),
{
    CompressionRatio { raw_bytes: (num_samples as u128) * 4, encoded_bytes: encoded.len() as u128 }
}

/// Encodes `data` and reports the compression ratio of the result, or the
/// error of the encoding.
pub fn compression_ratio<C: Codec>(codec: &C, data: &[i32], sample_rate: u32) -> (r: Result<
    CompressionRatio,
    CodecError,
>)
    ensures
        match r {
            Ok(ratio) => ratio.raw_bytes == data@.len() * 4 && exists|encoded: Vec<u8>|
                call_ensures(C::encode, (codec, data, sample_rate), Ok(encoded))
                    && ratio.encoded_bytes == encoded@.len(),
            Err(e) => call_ensures(C::encode, (codec, data, sample_rate), Err(e)),
        },
{
    match codec.encode(data, sample_rate) {
        Ok(encoded) => Ok(compression_ratio_of(data.len(), encoded.as_slice())),
        Err(e) => Err(e),
    }
}

} // verus!
