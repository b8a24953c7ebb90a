//! How many samples a span of time holds at a given rate.

use std::time::Duration;
use vstd::prelude::*;

verus! {

/// The whole seconds of a duration, as `Duration::as_secs` reports them.
pub uninterp spec fn whole_seconds(span: Duration) -> u64;

/// The part of a duration below one second, in nanoseconds, as
/// `Duration::subsec_nanos` reports it.
pub uninterp spec fn subsecond_nanos(span: Duration) -> u32;

/// `Duration::as_secs` returns the number of whole seconds in the duration.
pub assume_specification[ Duration::as_secs ](span: &Duration) -> (r: u64)
    ensures
        r == whole_seconds(*span),
;

/// `Duration::subsec_nanos` returns the fractional part of the duration in
/// nanoseconds, which is always less than one second.
pub assume_specification[ Duration::subsec_nanos ](span: &Duration) -> (r: u32)
    ensures
        r == subsecond_nanos(*span),
        r < 1_000_000_000,
;

/// Nanoseconds in one second.
pub const NANOS_PER_SECOND: u32 = 1_000_000_000;

/// The number of whole samples that fit in `secs` seconds and `nanos`
/// nanoseconds at `rate` samples per second: the product rounded down.
pub open spec fn samples_in(secs: nat, nanos: nat, rate: nat) -> nat {
    secs * rate + (nanos * rate) / (NANOS_PER_SECOND as nat)
}

/// `samples_in` is the floor of the time in seconds times the rate: it is the
/// greatest `n` for which `n` sample periods fit into the time.
pub proof fn lemma_samples_in_is_floor(secs: nat, nanos: nat, rate: nat)
    ensures
        samples_in(secs, nanos, rate) * NANOS_PER_SECOND <= (secs * NANOS_PER_SECOND + nanos)
            * rate,
        (secs * NANOS_PER_SECOND + nanos) * rate < (samples_in(secs, nanos, rate) + 1)
            * NANOS_PER_SECOND,
{
    let g = NANOS_PER_SECOND as int;
    let p = (nanos * rate) as int;
    vstd::arithmetic::div_mod::lemma_fundamental_div_mod(p, g);
    vstd::arithmetic::div_mod::lemma_mod_bound(p, g);
    let q = p / g;
    assert((secs * rate + q) * g == secs * rate * g + q * g) by (nonlinear_arith);
    assert((secs * g + nanos) * rate == secs * rate * g + nanos * rate) by (nonlinear_arith);
    assert(g * q == q * g) by (nonlinear_arith);
    assert((secs * rate + q + 1) * g == secs * rate * g + q * g + g) by (nonlinear_arith);
}

/// The number of whole samples in `span` at `rate`, or `limit` if that is
/// less.
pub fn samples_within(span: &Duration, rate: u32, limit: usize) -> (r: usize)
    ensures
        r as int == vstd::math::min(
            limit as int,
            samples_in(whole_seconds(*span) as nat, subsecond_nanos(*span) as nat, rate as nat) as int,
        ),
{
    let secs: u64 = span.as_secs();
    let nanos: u32 = span.subsec_nanos();
    assert(secs as int * rate as int <= 0xffff_ffff_ffff_ffff * 0xffff_ffff) by (nonlinear_arith)
        requires
            0 <= secs <= 0xffff_ffff_ffff_ffff,
            0 <= rate <= 0xffff_ffff,
    ;
    assert(nanos as int * rate as int <= 1_000_000_000 * 0xffff_ffff) by (nonlinear_arith)
        requires
            0 <= nanos <= 1_000_000_000,
            0 <= rate <= 0xffff_ffff,
    ;
    let whole: u128 = (secs as u128) * (rate as u128);
    let part: u128 = ((nanos as u128) * (rate as u128)) / (NANOS_PER_SECOND as u128);
    let total: u128 = whole + part;
    if total < limit as u128 {
        total as usize
    } else {
        limit
    }
}

} // verus!
