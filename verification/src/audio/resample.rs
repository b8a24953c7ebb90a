//! The integer arithmetic of a sample-rate change: how many slots the same
//! stretch of time takes at the new rate, and where in the old window each
//! new sample falls.

use vstd::prelude::*;

verus! {

/// The slots that hold at `new_rate` the time that `capacity` slots hold at
/// `old_rate`: `capacity * new_rate / old_rate`, rounded up.
pub open spec fn resampled_capacity(capacity: nat, old_rate: nat, new_rate: nat) -> nat {
    ((capacity * new_rate + old_rate - 1) / (old_rate as int)) as nat
}

/// The position in the old window of new sample `i`, `i * old_rate /
/// new_rate`, rounded down.
pub open spec fn source_floor(i: nat, old_rate: nat, new_rate: nat) -> nat {
    (i * old_rate) / new_rate
}

/// How far new sample `i` lies past `source_floor`, in units of `1 /
/// new_rate` of an old sample period.
pub open spec fn source_fraction(i: nat, old_rate: nat, new_rate: nat) -> nat {
    (i * old_rate) % new_rate
}

/// The position in the old window of new sample `i`, rounded up.
pub open spec fn source_ceil(i: nat, old_rate: nat, new_rate: nat) -> nat {
    if source_fraction(i, old_rate, new_rate) == 0 {
        source_floor(i, old_rate, new_rate)
    } else {
        source_floor(i, old_rate, new_rate) + 1
    }
}

/// A rate change keeps the time that the buffer spans, up to the rounding of
/// the last slot: the new capacity is the least number of slots at the new
/// rate that span no less time than the old capacity at the old rate.
pub proof fn lemma_rate_change_preserves_duration(capacity: nat, old_rate: nat, new_rate: nat)
    requires
        old_rate > 0,
    ensures
        capacity * new_rate <= resampled_capacity(capacity, old_rate, new_rate) * old_rate,
        resampled_capacity(capacity, old_rate, new_rate) * old_rate < capacity * new_rate
            + old_rate,
{
    let s = old_rate as int;
    let x = capacity * new_rate + old_rate - 1;
    vstd::arithmetic::div_mod::lemma_fundamental_div_mod(x, s);
    vstd::arithmetic::div_mod::lemma_mod_bound(x, s);
    assert(s * (x / s) == (x / s) * s) by (nonlinear_arith);
    assert(0 <= x / s) by (nonlinear_arith)
        requires
            0 <= x,
            s > 0,
    ;
}

/// A rate change by a whole factor multiplies the capacity by that factor.
pub proof fn lemma_resampled_capacity_whole_factor(capacity: nat, old_rate: nat, factor: nat)
    requires
        old_rate > 0,
    ensures
        resampled_capacity(capacity, old_rate, old_rate * factor) == capacity * factor,
{
    let s = old_rate as int;
    let k = (capacity * factor) as int;
    assert(capacity * (old_rate * factor) + old_rate - 1 == k * s + (s - 1)) by (nonlinear_arith)
        requires
            k == capacity * factor,
            s == old_rate,
    ;
    vstd::arithmetic::div_mod::lemma_fundamental_div_mod_converse(k * s + (s - 1), s, k, s - 1);
}

/// Every new sample falls inside the old window: its position, rounded down,
/// is a valid index there.
pub proof fn lemma_source_floor_in_window(i: nat, capacity: nat, old_rate: nat, new_rate: nat)
    requires
        old_rate > 0,
        new_rate > 0,
        i < resampled_capacity(capacity, old_rate, new_rate),
    ensures
        source_floor(i, old_rate, new_rate) < capacity,
        source_fraction(i, old_rate, new_rate) < new_rate,
        i * old_rate == source_floor(i, old_rate, new_rate) * new_rate + source_fraction(
            i,
            old_rate,
            new_rate,
        ),
{
    lemma_rate_change_preserves_duration(capacity, old_rate, new_rate);
    let m = resampled_capacity(capacity, old_rate, new_rate) as int;
    let s = old_rate as int;
    let n = new_rate as int;
    let c = capacity as int;
    let p = (i * old_rate) as int;
    assert(p < c * n) by (nonlinear_arith)
        requires
            p == i * s,
            0 <= i <= m - 1,
            m * s < c * n + s,
            s > 0,
    ;
    vstd::arithmetic::div_mod::lemma_fundamental_div_mod(p, n);
    vstd::arithmetic::div_mod::lemma_mod_bound(p, n);
    let q = p / n;
    assert(q < c) by (nonlinear_arith)
        requires
            p == n * q + p % n,
            0 <= p % n,
            p < c * n,
            n > 0,
    ;
    assert(n * q == q * n) by (nonlinear_arith);
}

/// Where new sample `i` falls in the old window.
#[derive(Debug, Clone, Copy, PartialEq, Eq, Structural)]
pub struct SourcePosition {
    /// The old sample at or before the position.
    pub floor: usize,
    /// The old sample at or after the position.
    pub ceil: usize,
    /// The distance from `floor`, as a numerator over the new rate.
    pub fraction: u32,
}

/// The capacity after a change from `old_rate` to `new_rate`.
pub fn compute_resampled_capacity(capacity: usize, old_rate: u32, new_rate: u32) -> (r: usize)
    requires
        old_rate > 0,
        resampled_capacity(capacity as nat, old_rate as nat, new_rate as nat) <= usize::MAX,
    ensures
        r == resampled_capacity(capacity as nat, old_rate as nat, new_rate as nat),
{
    assert(capacity as int * new_rate as int <= 0xffff_ffff_ffff_ffff * 0xffff_ffff)
        by (nonlinear_arith)
        requires
            0 <= capacity <= 0xffff_ffff_ffff_ffff,
            0 <= new_rate <= 0xffff_ffff,
    ;
    let scaled: u128 = (capacity as u128) * (new_rate as u128);
    let rounded: u128 = (scaled + (old_rate as u128 - 1)) / (old_rate as u128);
    rounded as usize
}

/// The position in the old window of new sample `i`.
pub fn source_position(i: usize, capacity: usize, old_rate: u32, new_rate: u32) -> (r:
    SourcePosition)
    requires
        old_rate > 0,
        new_rate > 0,
        i < resampled_capacity(capacity as nat, old_rate as nat, new_rate as nat),
    ensures
        r.floor == source_floor(i as nat, old_rate as nat, new_rate as nat),
        r.ceil == source_ceil(i as nat, old_rate as nat, new_rate as nat),
        r.fraction == source_fraction(i as nat, old_rate as nat, new_rate as nat),
        r.floor < capacity,
        r.fraction < new_rate,
{
    proof {
        lemma_source_floor_in_window(i as nat, capacity as nat, old_rate as nat, new_rate as nat);
    }
    assert(i as int * old_rate as int <= 0xffff_ffff_ffff_ffff * 0xffff_ffff) by (nonlinear_arith)
        requires
            0 <= i <= 0xffff_ffff_ffff_ffff,
            0 <= old_rate <= 0xffff_ffff,
    ;
    let scaled: u128 = (i as u128) * (old_rate as u128);
    let floor: usize = (scaled / (new_rate as u128)) as usize;
    let fraction: u32 = (scaled % (new_rate as u128)) as u32;
    let ceil: usize = if fraction == 0 {
        floor
    } else {
        floor + 1
    };
    SourcePosition { floor, ceil, fraction }
}

/// The samples that `len` samples at `from_rate` make at `to_rate` where
/// the last partial sample is dropped: `len * to_rate / from_rate`, rounded
/// down.
pub open spec fn resampled_len(len: nat, from_rate: nat, to_rate: nat) -> nat {
    (len * to_rate) / from_rate
}

/// The sample after `floor` in a signal of `len` samples, or the last one
/// where there is none after it.
pub open spec fn neighbour(floor: nat, len: nat) -> nat {
    if floor + 1 < len {
        floor + 1
    } else {
        (len - 1) as nat
    }
}

/// What resampling makes of sample `i` of the new signal: a blend of the
/// old sample at or before its position and of the one after that.
pub open spec fn blended_from<T, F: Fn(T, T, u32, u32) -> T>(
    blend: F,
    signal: Seq<T>,
    from_rate: u32,
    to_rate: u32,
    i: int,
    sample: T,
) -> bool {
    let floor = source_floor(i as nat, from_rate as nat, to_rate as nat);
    let fraction = source_fraction(i as nat, from_rate as nat, to_rate as nat) as u32;
    blend.ensures(
        (signal[floor as int], signal[neighbour(floor, signal.len()) as int], fraction, to_rate),
        sample,
    )
}

/// Every sample of a signal that was resampled to `resampled_len` samples
/// falls inside the old signal.
pub proof fn lemma_source_floor_in_signal(i: nat, len: nat, from_rate: nat, to_rate: nat)
    requires
        from_rate > 0,
        i < resampled_len(len, from_rate, to_rate),
    ensures
        to_rate > 0,
        source_floor(i, from_rate, to_rate) < len,
        source_fraction(i, from_rate, to_rate) < to_rate,
{
    let f = from_rate as int;
    let t = to_rate as int;
    let x = (len * to_rate) as int;
    if t == 0 {
        assert(x == 0) by (nonlinear_arith)
            requires
                x == len * t,
                t == 0,
        ;
        vstd::arithmetic::div_mod::lemma_small_mod(0, from_rate);
        vstd::arithmetic::div_mod::lemma_fundamental_div_mod(0, f);
        assert(0int / f == 0) by (nonlinear_arith)
            requires
                f > 0,
                0 == f * (0int / f) + 0int % f,
                0int % f == 0,
        ;
    }
    vstd::arithmetic::div_mod::lemma_fundamental_div_mod(x, f);
    vstd::arithmetic::div_mod::lemma_mod_bound(x, f);
    let m = x / f;
    assert(i * f < len * t) by (nonlinear_arith)
        requires
            x == f * m + x % f,
            0 <= x % f,
            x == len * t,
            0 <= i < m,
            f > 0,
    ;
    let p = (i * from_rate) as int;
    vstd::arithmetic::div_mod::lemma_fundamental_div_mod(p, t);
    vstd::arithmetic::div_mod::lemma_mod_bound(p, t);
    let q = p / t;
    assert(q < len) by (nonlinear_arith)
        requires
            p == t * q + p % t,
            0 <= p % t,
            p < len * t,
            t > 0,
            p == i * f,
    ;
}

/// The signal `data`, taken at `from_rate`, at `to_rate`. At the rate it
/// has, it is copied. Else it has `resampled_len` samples, and each is what
/// `blend(a, b, k, to_rate)` gives for the old sample `a` at or before its
/// position, the old sample `b` after that, and the distance `k / to_rate`
/// from `a`.
pub fn resample<T: Copy, F: Fn(T, T, u32, u32) -> T>(
    data: &[T],
    from_rate: u32,
    to_rate: u32,
    blend: F,
) -> (r: Vec<T>)
    requires
        from_rate > 0,
        resampled_len(data@.len(), from_rate as nat, to_rate as nat) <= usize::MAX,
        forall|a: T, b: T, k: u32| k < to_rate ==> blend.requires((a, b, k, to_rate)),
    ensures
        from_rate == to_rate ==> r@ == data@,
        from_rate != to_rate ==> r@.len() == resampled_len(
            data@.len(),
            from_rate as nat,
            to_rate as nat,
        ),
        from_rate != to_rate ==> forall|i: int|
            0 <= i < r@.len() ==> blended_from(blend, data@, from_rate, to_rate, i, #[trigger] r@[i]),
{
    let len: usize = data.len();
    let mut resampled: Vec<T> = Vec::new();
    if from_rate == to_rate {
        let mut i: usize = 0;
        while i < len
            invariant
                i <= len,
                len == data@.len(),
                resampled@ == data@.take(i as int),
            decreases len - i,
        {
            resampled.push(data[i]);
            i = i + 1;
            assert(resampled@ =~= data@.take(i as int));
        }
        assert(data@.take(len as int) =~= data@);
        return resampled;
    }
    assert(len as int * to_rate as int <= 0xffff_ffff_ffff_ffff * 0xffff_ffff) by (nonlinear_arith)
        requires
            0 <= len <= 0xffff_ffff_ffff_ffff,
            0 <= to_rate <= 0xffff_ffff,
    ;
    let new_len: usize = (((len as u128) * (to_rate as u128)) / (from_rate as u128)) as usize;
    let mut i: usize = 0;
    while i < new_len
        invariant
            i <= new_len,
            from_rate > 0,
            len == data@.len(),
            new_len == resampled_len(len as nat, from_rate as nat, to_rate as nat),
            resampled@.len() == i,
            forall|a: T, b: T, k: u32| k < to_rate ==> blend.requires((a, b, k, to_rate)),
            forall|j: int|
                0 <= j < i ==> blended_from(
                    blend,
                    data@,
                    from_rate,
                    to_rate,
                    j,
                    #[trigger] resampled@[j],
                ),
        decreases new_len - i,
    {
        proof {
            lemma_source_floor_in_signal(i as nat, len as nat, from_rate as nat, to_rate as nat);
        }
        assert(i as int * from_rate as int <= 0xffff_ffff_ffff_ffff * 0xffff_ffff)
            by (nonlinear_arith)
            requires
                0 <= i <= 0xffff_ffff_ffff_ffff,
                0 <= from_rate <= 0xffff_ffff,
        ;
        let scaled: u128 = (i as u128) * (from_rate as u128);
        let floor: usize = (scaled / (to_rate as u128)) as usize;
        let fraction: u32 = (scaled % (to_rate as u128)) as u32;
        let next: usize = if floor + 1 < len {
            floor + 1
        } else {
            len - 1
        };
        let sample: T = blend(data[floor], data[next], fraction, to_rate);
        resampled.push(sample);
        i = i + 1;
    }
    resampled
}

/// As `resample`, but with as many samples as it takes to span the whole
/// signal: `resampled_capacity` of them, the last partial sample counted as
/// one.
pub fn resample_covering<T: Copy, F: Fn(T, T, u32, u32) -> T>(
    data: &[T],
    from_rate: u32,
    to_rate: u32,
    blend: F,
) -> (r: Vec<T>)
    requires
        from_rate > 0,
        resampled_capacity(data@.len(), from_rate as nat, to_rate as nat) <= usize::MAX,
        forall|a: T, b: T, k: u32| k < to_rate ==> blend.requires((a, b, k, to_rate)),
    ensures
        from_rate == to_rate ==> r@ == data@,
        from_rate != to_rate ==> r@.len() == resampled_capacity(
            data@.len(),
            from_rate as nat,
            to_rate as nat,
        ),
        from_rate != to_rate ==> forall|i: int|
            0 <= i < r@.len() ==> blended_from(blend, data@, from_rate, to_rate, i, #[trigger] r@[i]),
{
    let len: usize = data.len();
    let mut resampled: Vec<T> = Vec::new();
    if from_rate == to_rate {
        let mut i: usize = 0;
        while i < len
            invariant
                i <= len,
                len == data@.len(),
                resampled@ == data@.take(i as int),
            decreases len - i,
        {
            resampled.push(data[i]);
            i = i + 1;
            assert(resampled@ =~= data@.take(i as int));
        }
        assert(data@.take(len as int) =~= data@);
        return resampled;
    }
    let new_len: usize = compute_resampled_capacity(len, from_rate, to_rate);
    let mut i: usize = 0;
    while i < new_len
        invariant
            i <= new_len,
            from_rate > 0,
            len == data@.len(),
            new_len == resampled_capacity(len as nat, from_rate as nat, to_rate as nat),
            resampled@.len() == i,
            forall|a: T, b: T, k: u32| k < to_rate ==> blend.requires((a, b, k, to_rate)),
            forall|j: int|
                0 <= j < i ==> blended_from(
                    blend,
                    data@,
                    from_rate,
                    to_rate,
                    j,
                    #[trigger] resampled@[j],
                ),
        decreases new_len - i,
    {
        proof {
            lemma_capacity_positive_rate(len as nat, from_rate as nat, to_rate as nat);
        }
        let at: SourcePosition = source_position(i, len, from_rate, to_rate);
        let index: usize = if at.floor < len - 1 {
            at.floor
        } else {
            len - 1
        };
        let next: usize = if index + 1 < len {
            index + 1
        } else {
            len - 1
        };
        let sample: T = blend(data[index], data[next], at.fraction, to_rate);
        resampled.push(sample);
        i = i + 1;
    }
    resampled
}

/// A signal that is resampled to at least one sample has a rate to be
/// resampled to.
pub proof fn lemma_capacity_positive_rate(len: nat, from_rate: nat, to_rate: nat)
    requires
        from_rate > 0,
        resampled_capacity(len, from_rate, to_rate) > 0,
    ensures
        to_rate > 0,
        len > 0,
{
    if to_rate == 0 || len == 0 {
        assert(len * to_rate == 0) by (nonlinear_arith)
            requires
                to_rate == 0 || len == 0,
        ;
        vstd::arithmetic::div_mod::lemma_basic_div((from_rate - 1) as int, from_rate as int);
    }
}

} // verus!
