//! The WAV container: a 44-byte RIFF header and mono PCM samples of 16 or
//! 32 bits, least significant byte first.

use crate::audio::codec::pcm::{
    clamp_sample, clamped, le_bytes_u16, le_bytes_u32, lemma_sample_round_trip,
    lemma_u32_round_trip, read_u16_le, read_u32_le, sample_bytes, sample_value, u16_to_le,
    u32_from_le, u32_to_le,
};
use crate::audio::codec::traits::{Codec, CodecType, LosslessCodec};
use crate::error::CodecError;
use vstd::prelude::*;
use vstd::string::StringExecFns;

verus! {

/// The bytes of the header, before the samples.
pub const HEADER_LEN: usize = 44;

/// Where the first sub-chunk begins, after the RIFF tag, the size and the
/// WAVE tag.
pub const FIRST_CHUNK: usize = 12;

/// "RIFF".
pub open spec fn riff_tag() -> Seq<u8> {
    seq![0x52u8, 0x49u8, 0x46u8, 0x46u8]
}

/// "WAVE".
pub open spec fn wave_tag() -> Seq<u8> {
    seq![0x57u8, 0x41u8, 0x56u8, 0x45u8]
}

/// "fmt ".
pub open spec fn fmt_tag() -> Seq<u8> {
    seq![0x66u8, 0x6du8, 0x74u8, 0x20u8]
}

/// "data".
pub open spec fn data_tag() -> Seq<u8> {
    seq![0x64u8, 0x61u8, 0x74u8, 0x61u8]
}

/// Whether the header's 32-bit fields can hold what `num_samples` samples of
/// `bits` bits at `sample_rate` ask of them: the size of the file after its
/// first eight bytes, and the bytes per second.
pub open spec fn representable(bits: u16, num_samples: nat, sample_rate: u32) -> bool {
    &&& 36 + num_samples * (bits / 8) <= u32::MAX
    &&& sample_rate * (bits / 8) <= u32::MAX
}

/// The canonical header of a mono PCM file with `data_size` bytes of
/// samples.
pub open spec fn header_bytes(bits: u16, data_size: u32, sample_rate: u32) -> Seq<u8> {
    riff_tag() + le_bytes_u32((36 + data_size) as u32) + wave_tag() + fmt_tag() + le_bytes_u32(16)
        + le_bytes_u16(1) + le_bytes_u16(1) + le_bytes_u32(sample_rate) + le_bytes_u32(
        (sample_rate * (bits / 8)) as u32,
    ) + le_bytes_u16(bits / 8) + le_bytes_u16(bits) + data_tag() + le_bytes_u32(data_size)
}

/// The samples as bytes, one after the other: byte `k` belongs to sample `k
/// / width` and is byte `k % width` of it.
pub open spec fn payload_bytes(bits: u16, samples: Seq<i32>) -> Seq<u8> {
    if bits == 16 {
        Seq::new(2 * samples.len(), |k: int| sample_bytes(16, samples[k / 2])[k % 2])
    } else {
        Seq::new(4 * samples.len(), |k: int| sample_bytes(bits, samples[k / 4])[k % 4])
    }
}

/// The file that holds `samples`: the header and then each sample, clamped
/// to full scale.
pub open spec fn encoded(bits: u16, samples: Seq<i32>, sample_rate: u32) -> Seq<u8> {
    header_bytes(bits, (samples.len() * (bits / 8)) as u32, sample_rate) + payload_bytes(
        bits,
        samples,
    )
}

/// Whether `bytes` begins as a WAV file does: "RIFF", four bytes of size,
/// "WAVE".
pub open spec fn has_magic(bytes: Seq<u8>) -> bool {
    bytes.subrange(0, 4) == riff_tag() && bytes.subrange(8, 12) == wave_tag()
}

/// Where the samples begin, looking from the sub-chunk at `offset` on: each
/// sub-chunk is a tag of four bytes, a size of four bytes and that many bytes
/// of content, and the samples follow the tag and size of the first one
/// tagged "data". `None` if the bytes end before such a sub-chunk, or a
/// sub-chunk claims more content than there are bytes.
pub open spec fn data_start(bytes: Seq<u8>, offset: int) -> Option<int>
    decreases bytes.len() - offset,
{
    if offset < 0 || offset + 8 > bytes.len() {
        None
    } else if bytes.subrange(offset, offset + 4) == data_tag() {
        Some(offset + 8)
    } else {
        let next = offset + 8 + u32_from_le(bytes.subrange(offset + 4, offset + 8));
        if next > bytes.len() {
            None
        } else {
            data_start(bytes, next)
        }
    }
}

/// The samples that `bytes` holds from `start` to its end. Bytes left over
/// at the end, too few for a sample, are not read.
pub open spec fn payload_samples(bits: u16, bytes: Seq<u8>, start: int) -> Seq<i32> {
    if bits == 16 {
        Seq::new(
            ((bytes.len() - start) / 2) as nat,
            |k: int| sample_value(16, bytes.subrange(start + 2 * k, start + 2 * k + 2)),
        )
    } else {
        Seq::new(
            ((bytes.len() - start) / 4) as nat,
            |k: int| sample_value(bits, bytes.subrange(start + 4 * k, start + 4 * k + 4)),
        )
    }
}

/// What decoding makes of `bytes`: the samples after the "data" tag, or the
/// reason why there are none.
pub open spec fn decoded(bits: u16, bytes: Seq<u8>) -> Result<Seq<i32>, CodecError> {
    if bytes.len() < 44 {
        Err(CodecError::InvalidData("WAV header too short"))
    } else if !has_magic(bytes) {
        Err(CodecError::InvalidData("Invalid WAV header"))
    } else {
        match data_start(bytes, 12) {
            Some(start) => Ok(payload_samples(bits, bytes, start)),
            None => Err(CodecError::InvalidData("No data chunk found")),
        }
    }
}

/// Whether an outcome of decoding is the one that `expected` describes.
pub open spec fn decodes_to(
    outcome: Result<Vec<i32>, CodecError>,
    expected: Result<Seq<i32>, CodecError>,
) -> bool {
    match (outcome, expected) {
        (Ok(samples), Ok(s)) => samples@ == s,
        (Err(e), Err(f)) => e == f,
        _ => false,
    }
}

/// The layout of the header: it has 44 bytes, the tags stand at 0, 8, 12
/// and 36, and the one sub-chunk before the samples has 16 bytes of content.
pub proof fn lemma_header_layout(bits: u16, data_size: u32, sample_rate: u32)
    ensures
        header_bytes(bits, data_size, sample_rate).len() == 44,
        header_bytes(bits, data_size, sample_rate).subrange(0, 4) == riff_tag(),
        header_bytes(bits, data_size, sample_rate).subrange(8, 12) == wave_tag(),
        header_bytes(bits, data_size, sample_rate).subrange(12, 16) == fmt_tag(),
        header_bytes(bits, data_size, sample_rate).subrange(16, 20) == le_bytes_u32(16),
        header_bytes(bits, data_size, sample_rate).subrange(24, 28) == le_bytes_u32(sample_rate),
        header_bytes(bits, data_size, sample_rate).subrange(34, 36) == le_bytes_u16(bits),
        header_bytes(bits, data_size, sample_rate).subrange(36, 40) == data_tag(),
        header_bytes(bits, data_size, sample_rate).subrange(40, 44) == le_bytes_u32(data_size),
{
    let h = header_bytes(bits, data_size, sample_rate);
    assert(h.len() == 44);
    assert(h.subrange(0, 4) =~= riff_tag());
    assert(h.subrange(8, 12) =~= wave_tag());
    assert(h.subrange(12, 16) =~= fmt_tag());
    assert(h.subrange(16, 20) =~= le_bytes_u32(16));
    assert(h.subrange(24, 28) =~= le_bytes_u32(sample_rate));
    assert(h.subrange(34, 36) =~= le_bytes_u16(bits));
    assert(h.subrange(36, 40) =~= data_tag());
    assert(h.subrange(40, 44) =~= le_bytes_u32(data_size));
}

/// In a file that begins with the canonical header, the samples begin
/// right after it.
proof fn lemma_samples_follow_header(header: Seq<u8>, payload: Seq<u8>)
    requires
        header.len() == 44,
        header.subrange(0, 4) == riff_tag(),
        header.subrange(8, 12) == wave_tag(),
        header.subrange(12, 16) == fmt_tag(),
        header.subrange(16, 20) == le_bytes_u32(16),
        header.subrange(36, 40) == data_tag(),
    ensures
        has_magic(header + payload),
        data_start(header + payload, 12) == Some(44int),
{
    let file = header + payload;
    assert(file.subrange(0, 4) =~= header.subrange(0, 4));
    assert(file.subrange(8, 12) =~= header.subrange(8, 12));
    assert(file.subrange(12, 16) =~= header.subrange(12, 16));
    assert(file.subrange(16, 20) =~= header.subrange(16, 20));
    assert(file.subrange(36, 40) =~= header.subrange(36, 40));
    assert(fmt_tag()[0] != data_tag()[0]);
    lemma_u32_round_trip(16);
    assert(data_start(file, 36) == Some(44int));
    assert(12 + 8 + u32_from_le(file.subrange(16, 20)) == 36);
}

/// The bytes of sample `k` stand in the payload at `k` times the width.
proof fn lemma_payload_sample(bits: u16, samples: Seq<i32>, k: int)
    requires
        bits == 16 || bits == 32,
        0 <= k < samples.len(),
    ensures
        bits == 16 ==> payload_bytes(bits, samples).subrange(2 * k, 2 * k + 2) == sample_bytes(
            bits,
            samples[k],
        ),
        bits == 32 ==> payload_bytes(bits, samples).subrange(4 * k, 4 * k + 4) == sample_bytes(
            bits,
            samples[k],
        ),
{
    lemma_sample_round_trip(bits, samples[k]);
    if bits == 16 {
        assert((2 * k) / 2 == k && (2 * k) % 2 == 0);
        assert((2 * k + 1) / 2 == k && (2 * k + 1) % 2 == 1);
        assert(payload_bytes(bits, samples).subrange(2 * k, 2 * k + 2) =~= sample_bytes(
            bits,
            samples[k],
        ));
    } else {
        assert((4 * k) / 4 == k && (4 * k) % 4 == 0);
        assert((4 * k + 1) / 4 == k && (4 * k + 1) % 4 == 1);
        assert((4 * k + 2) / 4 == k && (4 * k + 2) % 4 == 2);
        assert((4 * k + 3) / 4 == k && (4 * k + 3) % 4 == 3);
        assert(payload_bytes(bits, samples).subrange(4 * k, 4 * k + 4) =~= sample_bytes(
            bits,
            samples[k],
        ));
    }
}

/// Decoding what was encoded gives the samples back, each clamped to full
/// scale: samples within full scale come back unchanged.
pub proof fn lemma_decode_inverts_encode(bits: u16, samples: Seq<i32>, sample_rate: u32)
    requires
        bits == 16 || bits == 32,
        representable(bits, samples.len(), sample_rate),
    ensures
        decoded(bits, encoded(bits, samples, sample_rate)) == Ok::<Seq<i32>, CodecError>(
            Seq::new(samples.len(), |k: int| clamped(bits, samples[k])),
        ),
{
    let data_size = (samples.len() * (bits / 8)) as u32;
    let header = header_bytes(bits, data_size, sample_rate);
    let payload = payload_bytes(bits, samples);
    let file = header + payload;
    lemma_header_layout(bits, data_size, sample_rate);
    lemma_samples_follow_header(header, payload);
    let expected = Seq::new(samples.len(), |k: int| clamped(bits, samples[k]));
    let found = payload_samples(bits, file, 44);
    assert(found.len() == samples.len());
    assert forall|k: int| 0 <= k < samples.len() implies found[k] == expected[k] by {
        lemma_sample_round_trip(bits, samples[k]);
        lemma_payload_sample(bits, samples, k);
        if bits == 16 {
            assert(file.subrange(44 + 2 * k, 44 + 2 * k + 2) =~= payload.subrange(
                2 * k,
                2 * k + 2,
            ));
        } else {
            assert(file.subrange(44 + 4 * k, 44 + 4 * k + 4) =~= payload.subrange(
                4 * k,
                4 * k + 4,
            ));
        }
    }
    assert(found =~= expected);
}

/// The three reasons for which decoding fails are told apart by their
/// messages.
pub proof fn lemma_decode_errors_distinct()
    ensures
        "WAV header too short"@ != "Invalid WAV header"@,
        "WAV header too short"@ != "No data chunk found"@,
        "Invalid WAV header"@ != "No data chunk found"@,
{
    reveal_strlit("WAV header too short");
    reveal_strlit("Invalid WAV header");
    reveal_strlit("No data chunk found");
    assert("WAV header too short"@.len() == 20);
    assert("Invalid WAV header"@.len() == 18);
    assert("No data chunk found"@.len() == 19);
}

/// Appends `bytes` to `buffer`.
fn append_bytes(buffer: &mut Vec<u8>, bytes: &[u8])
    ensures
        final(buffer)@ == old(buffer)@ + bytes@,
{
    let n: usize = bytes.len();
    let mut i: usize = 0;
    while i < n
        invariant
            i <= n,
            n == bytes@.len(),
            buffer@ == old(buffer)@ + bytes@.take(i as int),
        decreases n - i,
    {
        buffer.push(bytes[i]);
        i = i + 1;
        assert(buffer@ =~= old(buffer)@ + bytes@.take(i as int));
    }
    assert(bytes@.take(n as int) =~= bytes@);
}

/// Whether the four bytes at `at` are `tag`.
fn tag_at(bytes: &[u8], at: usize, tag: [u8; 4]) -> (r: bool)
    requires
        at + 4 <= bytes@.len(),
    ensures
        r == (bytes@.subrange(at as int, at + 4) == tag@),
{
    let r: bool = bytes[at] == tag[0] && bytes[at + 1] == tag[1] && bytes[at + 2] == tag[2]
        && bytes[at + 3] == tag[3];
    proof {
        let found = bytes@.subrange(at as int, at + 4);
        if r {
            assert(found =~= tag@);
        } else {
            assert(found[0] != tag@[0] || found[1] != tag@[1] || found[2] != tag@[2] || found[3]
                != tag@[3]);
        }
    }
    r
}

/// The sample of `bits` bits at `at` in `bytes`.
fn sample_at(bits: u16, bytes: &[u8], at: usize) -> (r: i32)
    requires
        bits == 16 || bits == 32,
        at + bits / 8 <= bytes@.len(),
    ensures
        r == sample_value(bits, bytes@.subrange(at as int, at + bits / 8)),
{
    if bits == 16 {
        let raw: u16 = read_u16_le(bytes, at);
        if raw >= 32768 {
            raw as i32 - 65536
        } else {
            raw as i32
        }
    } else {
        let raw: u32 = read_u32_le(bytes, at);
        if raw >= 2147483648 {
            (raw as i64 - 4294967296) as i32
        } else {
            raw as i32
        }
    }
}

/// The WAV codec for mono samples of 16 or 32 bits.
#[derive(Debug, Clone, Copy)]
pub struct WavCodec {
    bits_per_sample: u16,
}

impl WavCodec {
    #[verifier::type_invariant]
    spec fn supported(self) -> bool {
        self.bits_per_sample == 16 || self.bits_per_sample == 32
    }

    /// The width of a sample in bits.
    pub closed spec fn bits(&self) -> u16 {
        self.bits_per_sample
    }

    /// A codec for samples of `bits_per_sample` bits, which must be 16 or
    /// 32.
    pub fn new(bits_per_sample: u16) -> (r: Result<Self, CodecError>)
        ensures
            bits_per_sample == 16 || bits_per_sample == 32 ==> r is Ok && r->Ok_0.bits()
                == bits_per_sample,
            !(bits_per_sample == 16 || bits_per_sample == 32) ==> r == Err::<Self, CodecError>(
                CodecError::InvalidConfiguration("WAV only supports 16 or 32 bits per sample"),
            ),
    {
        if bits_per_sample == 16 || bits_per_sample == 32 {
            Ok(WavCodec { bits_per_sample })
        } else {
            Err(CodecError::InvalidConfiguration("WAV only supports 16 or 32 bits per sample"))
        }
    }

    /// The width of a sample in bits: 16 or 32.
    pub fn bits_per_sample(&self) -> (r: u16)
        ensures
            r == self.bits(),
            r == 16 || r == 32,
    {
        proof {
            use_type_invariant(self);
        }
        self.bits_per_sample
    }

    /// The header of a file of `num_samples` samples.
    pub fn write_header(&self, num_samples: usize, sample_rate: u32) -> (header: Vec<u8>)
        requires
            representable(self.bits(), num_samples as nat, sample_rate),
        ensures
            header@ == header_bytes(
                self.bits(),
                (num_samples * (self.bits() / 8)) as u32,
                sample_rate,
            ),
            header@.len() == 44,
    {
        proof {
            use_type_invariant(self);
        }
        let channels: u16 = 1;
        let bytes_per_sample: u16 = self.bits_per_sample / 8;
        let byte_rate: u32 = sample_rate * (bytes_per_sample as u32);
        let block_align: u16 = channels * bytes_per_sample;
        let data_size: u32 = (num_samples * (bytes_per_sample as usize)) as u32;
        let file_size: u32 = 36 + data_size;
        let mut header: Vec<u8> = Vec::with_capacity(HEADER_LEN);
        let riff: [u8; 4] = [0x52, 0x49, 0x46, 0x46];
        let wave: [u8; 4] = [0x57, 0x41, 0x56, 0x45];
        let fmt: [u8; 4] = [0x66, 0x6d, 0x74, 0x20];
        let data: [u8; 4] = [0x64, 0x61, 0x74, 0x61];
        assert(riff@ =~= riff_tag());
        assert(wave@ =~= wave_tag());
        assert(fmt@ =~= fmt_tag());
        assert(data@ =~= data_tag());
        append_bytes(&mut header, riff.as_slice());
        append_bytes(&mut header, u32_to_le(file_size).as_slice());
        append_bytes(&mut header, wave.as_slice());
        append_bytes(&mut header, fmt.as_slice());
        append_bytes(&mut header, u32_to_le(16).as_slice());
        append_bytes(&mut header, u16_to_le(1).as_slice());
        append_bytes(&mut header, u16_to_le(channels).as_slice());
        append_bytes(&mut header, u32_to_le(sample_rate).as_slice());
        append_bytes(&mut header, u32_to_le(byte_rate).as_slice());
        append_bytes(&mut header, u16_to_le(block_align).as_slice());
        append_bytes(&mut header, u16_to_le(self.bits_per_sample).as_slice());
        append_bytes(&mut header, data.as_slice());
        append_bytes(&mut header, u32_to_le(data_size).as_slice());
        assert(header@ =~= header_bytes(self.bits(), data_size, sample_rate));
        header
    }

    /// The bytes of one sample, clamped to full scale.
    pub fn encode_sample(&self, sample: i32) -> (bytes: Vec<u8>)
        ensures
            bytes@ == sample_bytes(self.bits(), sample),
            bytes@.len() == self.bits() / 8,
    {
        proof {
            use_type_invariant(self);
        }
        let value: i32 = clamp_sample(self.bits_per_sample, sample);
        let mut bytes: Vec<u8> = Vec::with_capacity(4);
        if self.bits_per_sample == 16 {
            let raw: u16 = if value < 0 {
                (value + 65536) as u16
            } else {
                value as u16
            };
            append_bytes(&mut bytes, u16_to_le(raw).as_slice());
        } else {
            let raw: u32 = if value < 0 {
                (value as i64 + 4294967296) as u32
            } else {
                value as u32
            };
            append_bytes(&mut bytes, u32_to_le(raw).as_slice());
        }
        assert(bytes@ =~= sample_bytes(self.bits(), sample));
        bytes
    }

    /// The sample that `bytes` holds, which must be as many bytes as a
    /// sample has.
    pub fn decode_sample(&self, bytes: &[u8]) -> (r: Result<i32, CodecError>)
        ensures
            bytes@.len() == self.bits() / 8 ==> r == Ok::<i32, CodecError>(
                sample_value(self.bits(), bytes@),
            ),
            bytes@.len() != self.bits() / 8 ==> r == Err::<i32, CodecError>(
                CodecError::InvalidData("Invalid sample data"),
            ),
    {
        proof {
            use_type_invariant(self);
        }
        if self.bits_per_sample == 16 {
            if bytes.len() != 2 {
                return Err(CodecError::InvalidData("Invalid sample data"));
            }
            assert(bytes@.subrange(0, 2) =~= bytes@);
            Ok(sample_at(16, bytes, 0))
        } else {
            if bytes.len() != 4 {
                return Err(CodecError::InvalidData("Invalid sample data"));
            }
            assert(bytes@.subrange(0, 4) =~= bytes@);
            Ok(sample_at(self.bits_per_sample, bytes, 0))
        }
    }

    /// The file that holds `data` at `sample_rate`: the 44-byte header and
    /// then each sample, clamped to full scale. It fails where the header's
    /// fields cannot hold the rate or the size.
    pub fn encode_samples(&self, data: &[i32], sample_rate: u32) -> (r: Result<
        Vec<u8>,
        CodecError,
    >)
        ensures
            representable(self.bits(), data@.len(), sample_rate) ==> r is Ok && r->Ok_0@
                == encoded(self.bits(), data@, sample_rate) && r->Ok_0@.len() == 44 + data@.len()
                * (self.bits() / 8),
            sample_rate * (self.bits() / 8) > u32::MAX ==> r == Err::<Vec<u8>, CodecError>(
                CodecError::UnsupportedSampleRate(sample_rate),
            ),
            sample_rate * (self.bits() / 8) <= u32::MAX && 36 + data@.len() * (self.bits() / 8)
                > u32::MAX ==> (r matches Err(CodecError::Encoding(reason)) && reason@
                == "Too many samples for a WAV container"@),
    {
        proof {
            use_type_invariant(self);
        }
        let wide: bool = self.bits_per_sample == 32;
        assert(self.bits() / 8 == if wide { 4int } else { 2int });
        let highest_rate: u32 = if wide {
            u32::MAX / 4
        } else {
            u32::MAX / 2
        };
        if sample_rate > highest_rate {
            return Err(CodecError::UnsupportedSampleRate(sample_rate));
        }
        let n: usize = data.len();
        let most_samples: u32 = if wide {
            (u32::MAX - 36) / 4
        } else {
            (u32::MAX - 36) / 2
        };
        if n as u64 > most_samples as u64 {
            return Err(
                CodecError::Encoding(String::from_str("Too many samples for a WAV container")),
            );
        }
        let mut buffer: Vec<u8> = self.write_header(n, sample_rate);
        let ghost header = buffer@;
        let mut i: usize = 0;
        assert(buffer@ =~= header + payload_bytes(self.bits(), data@.take(0)));
        while i < n
            invariant
                i <= n,
                n == data@.len(),
                self.bits() == 16 || self.bits() == 32,
                header.len() == 44,
                buffer@ == header + payload_bytes(self.bits(), data@.take(i as int)),
            decreases n - i,
        {
            let bytes: Vec<u8> = self.encode_sample(data[i]);
            append_bytes(&mut buffer, bytes.as_slice());
            i = i + 1;
            proof {
                let bits = self.bits();
                let prev = data@.take(i - 1);
                let next = data@.take(i as int);
                assert(next[i - 1] == data@[i - 1]);
                assert forall|k: int| 0 <= k < payload_bytes(bits, prev).len() implies payload_bytes(
                    bits,
                    prev,
                )[k] == payload_bytes(bits, next)[k] by {
                    if bits == 16 {
                        assert(prev[k / 2] == next[k / 2]);
                    } else {
                        assert(prev[k / 4] == next[k / 4]);
                    }
                }
                assert(payload_bytes(bits, next) =~= payload_bytes(bits, prev) + bytes@);
                assert(buffer@ =~= header + payload_bytes(bits, next));
            }
        }
        assert(data@.take(n as int) =~= data@);
        Ok(buffer)
    }

    /// The samples of the file `data`. The file must have 44 bytes or more,
    /// begin with "RIFF" and hold "WAVE" after the size. Its sub-chunks are
    /// passed over up to the first one tagged "data"; all that follows that
    /// tag and its size is read as samples. The rate is not looked at.
    pub fn decode_samples(&self, data: &[u8], sample_rate: u32) -> (r: Result<
        Vec<i32>,
        CodecError,
    >)
        ensures
            decodes_to(r, decoded(self.bits(), data@)),
    {
        proof {
            use_type_invariant(self);
        }
        let len: usize = data.len();
        if len < HEADER_LEN {
            return Err(CodecError::InvalidData("WAV header too short"));
        }
        let riff: [u8; 4] = [0x52, 0x49, 0x46, 0x46];
        let wave: [u8; 4] = [0x57, 0x41, 0x56, 0x45];
        let tag: [u8; 4] = [0x64, 0x61, 0x74, 0x61];
        assert(riff@ =~= riff_tag());
        assert(wave@ =~= wave_tag());
        assert(tag@ =~= data_tag());
        if !tag_at(data, 0, riff) || !tag_at(data, 8, wave) {
            return Err(CodecError::InvalidData("Invalid WAV header"));
        }
        let mut offset: usize = FIRST_CHUNK;
        loop
            invariant
                FIRST_CHUNK <= offset <= len,
                len == data@.len(),
                tag@ == data_tag(),
                data_start(data@, 12) == data_start(data@, offset as int),
                has_magic(data@),
                len >= 44,
                self.bits() == 16 || self.bits() == 32,
            decreases len - offset,
        {
            if len - offset < 8 {
                return Err(CodecError::InvalidData("No data chunk found"));
            }
            if tag_at(data, offset, tag) {
                let data_offset: usize = offset + 8;
                return Ok(self.read_samples(data, data_offset));
            }
            let chunk_size: u32 = read_u32_le(data, offset + 4);
            if chunk_size as u64 > (len - offset - 8) as u64 {
                return Err(CodecError::InvalidData("No data chunk found"));
            }
            offset = offset + 8 + chunk_size as usize;
        }
    }

    /// The samples that `data` holds from `start` to its end.
    fn read_samples(&self, data: &[u8], start: usize) -> (samples: Vec<i32>)
        requires
            start <= data@.len(),
        ensures
            samples@ == payload_samples(self.bits(), data@, start as int),
    {
        proof {
            use_type_invariant(self);
        }
        let bits: u16 = self.bits_per_sample;
        let width: usize = if bits == 16 {
            2
        } else {
            4
        };
        let len: usize = data.len();
        let count: usize = (len - start) / width;
        let mut samples: Vec<i32> = Vec::with_capacity(count);
        let mut k: usize = 0;
        let mut at: usize = start;
        while k < count
            invariant
                k <= count,
                len == data@.len(),
                bits == self.bits(),
                bits == 16 || bits == 32,
                bits == 16 ==> width == 2 && at == start + 2 * k && count == (data@.len() - start)
                    / 2,
                bits == 32 ==> width == 4 && at == start + 4 * k && count == (data@.len() - start)
                    / 4,
                start <= data@.len(),
                samples@.len() == k,
                forall|j: int|
                    0 <= j < k ==> #[trigger] samples@[j] == payload_samples(
                        bits,
                        data@,
                        start as int,
                    )[j],
            decreases count - k,
        {
            samples.push(sample_at(bits, data, at));
            at = at + width;
            k = k + 1;
        }
        assert(samples@ =~= payload_samples(bits, data@, start as int));
        samples
    }
}

impl Default for WavCodec {
    /// The codec for samples of 16 bits.
    fn default() -> (r: Self)
        ensures
            r.bits() == 16,
    {
        WavCodec { bits_per_sample: 16 }
    }
}

impl Codec for WavCodec {
    /// "WAV".
    fn name(&self) -> (r: &'static str)
        ensures
            r@ == "WAV"@,
    {
        "WAV"
    }

    /// "audio/wav".
    fn mime_type(&self) -> (r: &'static str)
        ensures
            r@ == "audio/wav"@,
    {
        "audio/wav"
    }

    /// "wav".
    fn extension(&self) -> (r: &'static str)
        ensures
            r@ == "wav"@,
    {
        "wav"
    }

    /// WAV is lossless.
    fn codec_type(&self) -> (r: CodecType)
        ensures
            r == CodecType::Lossless,
    {
        CodecType::Lossless
    }

    fn sample_bits(&self) -> (r: u16)
        ensures
            r == self.bits(),
    {
        self.bits_per_sample
    }

    fn encode(&self, data: &[i32], sample_rate: u32) -> (r: Result<Vec<u8>, CodecError>)
        ensures
            representable(self.bits(), data@.len(), sample_rate) ==> r is Ok && r->Ok_0@
                == encoded(self.bits(), data@, sample_rate),
            !representable(self.bits(), data@.len(), sample_rate) ==> r is Err,
    {
        proof {
            use_type_invariant(self);
        }
        self.encode_samples(data, sample_rate)
    }

    fn decode(&self, data: &[u8], sample_rate: u32) -> (r: Result<Vec<i32>, CodecError>)
        ensures
            decodes_to(r, decoded(self.bits(), data@)),
    {
        self.decode_samples(data, sample_rate)
    }
}

impl LosslessCodec for WavCodec {

}

} // verus!
