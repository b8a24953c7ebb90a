//! Integer samples as little-endian bytes.
//!
//! A sample is a signed integer on the scale of its width: full scale is
//! 32767 at 16 bits and 2147483647 at 32 bits. In bytes it is two's
//! complement, least significant byte first.

use vstd::prelude::*;

verus! {

/// The two bytes of `x`, least significant first.
pub open spec fn le_bytes_u16(x: u16) -> Seq<u8> {
    seq![(x % 256) as u8, (x / 256) as u8]
}

/// The four bytes of `x`, least significant first.
pub open spec fn le_bytes_u32(x: u32) -> Seq<u8> {
    seq![
        (x % 256) as u8,
        ((x / 256) % 256) as u8,
        ((x / 65536) % 256) as u8,
        (x / 16777216) as u8,
    ]
}

/// The number whose bytes, least significant first, are the first two of
/// `bytes`.
pub open spec fn u16_from_le(bytes: Seq<u8>) -> u16 {
    (bytes[0] + 256 * bytes[1]) as u16
}

/// The number whose bytes, least significant first, are the first four of
/// `bytes`.
pub open spec fn u32_from_le(bytes: Seq<u8>) -> u32 {
    (bytes[0] + 256 * bytes[1] + 65536 * bytes[2] + 16777216 * bytes[3]) as u32
}

/// The two's complement of a 16-bit sample.
pub open spec fn unsigned16(v: i16) -> u16 {
    if v < 0 {
        (v + 65536) as u16
    } else {
        v as u16
    }
}

/// The 16-bit sample with the given two's complement.
pub open spec fn signed16(u: u16) -> i16 {
    if u >= 32768 {
        (u - 65536) as i16
    } else {
        u as i16
    }
}

/// The two's complement of a 32-bit sample.
pub open spec fn unsigned32(v: i32) -> u32 {
    if v < 0 {
        (v + 4294967296) as u32
    } else {
        v as u32
    }
}

/// The 32-bit sample with the given two's complement.
pub open spec fn signed32(u: u32) -> i32 {
    if u >= 2147483648 {
        (u - 4294967296) as i32
    } else {
        u as i32
    }
}

/// Full scale at a sample width: the largest magnitude that is written.
pub open spec fn full_scale(bits: u16) -> int {
    if bits == 16 {
        32767
    } else {
        2147483647
    }
}

/// `sample` held to the range from minus full scale to full scale.
pub open spec fn clamped(bits: u16, sample: i32) -> i32 {
    if sample > full_scale(bits) {
        full_scale(bits) as i32
    } else if sample < -full_scale(bits) {
        (-full_scale(bits)) as i32
    } else {
        sample
    }
}

/// The bytes of one sample at a width of 16 or 32 bits: the sample is
/// clamped to full scale and written in two's complement, least significant
/// byte first.
pub open spec fn sample_bytes(bits: u16, sample: i32) -> Seq<u8> {
    if bits == 16 {
        le_bytes_u16(unsigned16(clamped(bits, sample) as i16))
    } else {
        le_bytes_u32(unsigned32(clamped(bits, sample)))
    }
}

/// The sample that the first `bits / 8` bytes of `bytes` hold.
pub open spec fn sample_value(bits: u16, bytes: Seq<u8>) -> i32 {
    if bits == 16 {
        signed16(u16_from_le(bytes)) as i32
    } else {
        signed32(u32_from_le(bytes))
    }
}

/// Reading back the bytes of a 16-bit number gives the number.
pub proof fn lemma_u16_round_trip(x: u16)
    ensures
        le_bytes_u16(x).len() == 2,
        u16_from_le(le_bytes_u16(x)) == x,
{
}

/// Reading back the bytes of a 32-bit number gives the number.
pub proof fn lemma_u32_round_trip(x: u32)
    ensures
        le_bytes_u32(x).len() == 4,
        u32_from_le(le_bytes_u32(x)) == x,
{
}

/// A sample that is written and read back comes out clamped to full scale,
/// and unchanged if it was within it.
pub proof fn lemma_sample_round_trip(bits: u16, sample: i32)
    requires
        bits == 16 || bits == 32,
    ensures
        sample_bytes(bits, sample).len() == bits / 8,
        sample_value(bits, sample_bytes(bits, sample)) == clamped(bits, sample),
        -full_scale(bits) <= sample <= full_scale(bits) ==> clamped(bits, sample) == sample,
{
    if bits == 16 {
        lemma_u16_round_trip(unsigned16(clamped(bits, sample) as i16));
    } else {
        lemma_u32_round_trip(unsigned32(clamped(bits, sample)));
    }
}

/// The integer sample for a sample that is the fraction `num / den` of
/// full scale: the product of the fraction and full scale, rounded toward
/// zero.
pub open spec fn quantized(bits: u16, num: int, den: int) -> int {
    if num >= 0 {
        (num * full_scale(bits)) / den
    } else {
        -((-num * full_scale(bits)) / den)
    }
}

/// A sample between minus one and one, as a fraction of full scale, that is
/// quantized, written and read back, lies less than one step of the scale
/// from where it was: its integer sample is within full scale, comes back
/// from its bytes unchanged, and differs from the exact product by less than
/// one.
pub proof fn lemma_quantization_within_one_step(bits: u16, num: int, den: int)
    requires
        bits == 16 || bits == 32,
        den > 0,
        -den <= num <= den,
    ensures
        -full_scale(bits) <= quantized(bits, num, den) <= full_scale(bits),
        sample_value(bits, sample_bytes(bits, quantized(bits, num, den) as i32)) == quantized(
            bits,
            num,
            den,
        ),
        -den < quantized(bits, num, den) * den - num * full_scale(bits) < den,
{
    let scale = full_scale(bits);
    let magnitude = if num >= 0 {
        num
    } else {
        -num
    };
    let p = magnitude * scale;
    assert(0 <= p <= den * scale) by (nonlinear_arith)
        requires
            0 <= magnitude <= den,
            scale > 0,
            p == magnitude * scale,
    ;
    vstd::arithmetic::div_mod::lemma_fundamental_div_mod(p, den);
    vstd::arithmetic::div_mod::lemma_mod_bound(p, den);
    let v = p / den;
    assert(0 <= v <= scale) by (nonlinear_arith)
        requires
            p == den * v + p % den,
            0 <= p % den < den,
            0 <= p <= den * scale,
            den > 0,
    ;
    assert(v * den == den * v) by (nonlinear_arith);
    assert((-v) * den == -(v * den)) by (nonlinear_arith);
    assert((-num) * scale == -(num * scale)) by (nonlinear_arith);
    lemma_sample_round_trip(bits, quantized(bits, num, den) as i32);
}

/// The two bytes of `x`, least significant first.
pub fn u16_to_le(x: u16) -> (r: [u8; 2])
    ensures
        r@ == le_bytes_u16(x),
{
    let r: [u8; 2] = [(x % 256) as u8, (x / 256) as u8];
    assert(r@ =~= le_bytes_u16(x));
    r
}

/// The four bytes of `x`, least significant first.
pub fn u32_to_le(x: u32) -> (r: [u8; 4])
    ensures
        r@ == le_bytes_u32(x),
{
    let r: [u8; 4] = [
        (x % 256) as u8,
        ((x / 256) % 256) as u8,
        ((x / 65536) % 256) as u8,
        (x / 16777216) as u8,
    ];
    assert(r@ =~= le_bytes_u32(x));
    r
}

/// The 32-bit number at `at` in `bytes`, least significant byte first.
pub fn read_u32_le(bytes: &[u8], at: usize) -> (r: u32)
    requires
        at + 4 <= bytes@.len(),
    ensures
        r == u32_from_le(bytes@.subrange(at as int, at + 4)),
{
    let b0: u32 = bytes[at] as u32;
    let b1: u32 = bytes[at + 1] as u32;
    let b2: u32 = bytes[at + 2] as u32;
    let b3: u32 = bytes[at + 3] as u32;
    b0 + 256 * b1 + 65536 * b2 + 16777216 * b3
}

/// The 16-bit number at `at` in `bytes`, least significant byte first.
pub fn read_u16_le(bytes: &[u8], at: usize) -> (r: u16)
    requires
        at + 2 <= bytes@.len(),
    ensures
        r == u16_from_le(bytes@.subrange(at as int, at + 2)),
{
    let b0: u16 = bytes[at] as u16;
    let b1: u16 = bytes[at + 1] as u16;
    b0 + 256 * b1
}

/// `sample` held to the range from minus full scale to full scale.
pub fn clamp_sample(bits: u16, sample: i32) -> (r: i32)
    ensures
        r == clamped(bits, sample),
{
    let limit: i32 = if bits == 16 {
        32767
    } else {
        2147483647
    };
    if sample > limit {
        limit
    } else if sample < -limit {
        -limit
    } else {
        sample
    }
}

} // verus!
