//! A fixed-capacity ring of samples that always holds the most recent ones.

use crate::audio::resample::{
    compute_resampled_capacity, lemma_rate_change_preserves_duration, resampled_capacity,
    source_ceil, source_floor, source_fraction, source_position, SourcePosition,
};
use crate::audio::span::{samples_in, samples_within, subsecond_nanos, whole_seconds};
use std::time::Duration;
use vstd::prelude::*;

verus! {

/// The window that results from pushing `incoming` through a window that
/// holds `window`: the last `window.len()` items of the two joined.
pub open spec fn retain_latest<T>(window: Seq<T>, incoming: Seq<T>) -> Seq<T> {
    (window + incoming).subrange(incoming.len() as int, (window.len() + incoming.len()) as int)
}

/// Position `x` folded back into a ring of `len` slots, for `x` below `2 * len`.
pub open spec fn wrap(x: int, len: int) -> int {
    if x < len {
        x
    } else {
        x - len
    }
}

/// The contents of `storage` read once around, starting at `cursor`.
pub open spec fn unroll<T>(storage: Seq<T>, cursor: int) -> Seq<T> {
    Seq::new(storage.len(), |j: int| storage[wrap(cursor + j, storage.len() as int)])
}

/// Writing one item at the cursor and stepping the cursor drops the oldest
/// item of the window and appends the new one.
pub proof fn lemma_unroll_step<T>(storage: Seq<T>, cursor: int, item: T)
    requires
        0 <= cursor < storage.len(),
    ensures
        unroll(storage.update(cursor, item), wrap(cursor + 1, storage.len() as int))
            == unroll(storage, cursor).drop_first().push(item),
{
    let len = storage.len() as int;
    let next = wrap(cursor + 1, len);
    let a = unroll(storage.update(cursor, item), next);
    let b = unroll(storage, cursor).drop_first().push(item);
    assert(a.len() == b.len());
    assert forall|j: int| 0 <= j < len implies a[j] == b[j] by {
        if j < len - 1 {
            assert(wrap(next + j, len) == wrap(cursor + (j + 1), len));
            assert(wrap(next + j, len) != cursor);
        } else {
            assert(wrap(next + j, len) == cursor);
        }
    }
    assert(a =~= b);
}

/// Pushing one more item through a window drops its oldest item and appends
/// the new one.
pub proof fn lemma_retain_latest_push<T>(window: Seq<T>, incoming: Seq<T>, item: T)
    requires
        window.len() > 0,
    ensures
        retain_latest(window, incoming.push(item)) == retain_latest(
            window,
            incoming,
        ).drop_first().push(item),
{
    assert(retain_latest(window, incoming.push(item)) =~= retain_latest(
        window,
        incoming,
    ).drop_first().push(item));
}

/// The blocks joined end to end, first block first.
pub open spec fn joined<T>(blocks: Seq<Seq<T>>) -> Seq<T>
    decreases blocks.len(),
{
    if blocks.len() == 0 {
        Seq::empty()
    } else {
        joined(blocks.drop_last()) + blocks.last()
    }
}

/// The window after each of `blocks` was written to it in turn.
pub open spec fn after_writes<T>(window: Seq<T>, blocks: Seq<Seq<T>>) -> Seq<T>
    decreases blocks.len(),
{
    if blocks.len() == 0 {
        window
    } else {
        retain_latest(after_writes(window, blocks.drop_last()), blocks.last())
    }
}

/// Two writes in a row leave what one write of the two blocks joined
/// leaves.
pub proof fn lemma_writes_join<T>(window: Seq<T>, first: Seq<T>, second: Seq<T>)
    ensures
        retain_latest(retain_latest(window, first), second) == retain_latest(
            window,
            first + second,
        ),
{
    assert(retain_latest(retain_latest(window, first), second) =~= retain_latest(
        window,
        first + second,
    ));
}

/// Any number of writes leave what one write of all the blocks joined
/// leaves: how the samples were cut into blocks makes no difference.
pub proof fn lemma_writes_as_one<T>(window: Seq<T>, blocks: Seq<Seq<T>>)
    ensures
        after_writes(window, blocks) == retain_latest(window, joined(blocks)),
        after_writes(window, blocks).len() == window.len(),
    decreases blocks.len(),
{
    if blocks.len() == 0 {
        assert(retain_latest(window, joined(blocks)) =~= window);
    } else {
        lemma_writes_as_one(window, blocks.drop_last());
        lemma_writes_join(window, joined(blocks.drop_last()), blocks.last());
    }
}

/// Once as many samples were written as the window holds, in whatever
/// blocks, the window is exactly the last of them, in the order in which they
/// were written, whatever it held before.
pub proof fn lemma_window_holds_latest<T>(window: Seq<T>, blocks: Seq<Seq<T>>)
    requires
        joined(blocks).len() >= window.len(),
    ensures
        after_writes(window, blocks) == joined(blocks).subrange(
            joined(blocks).len() - window.len(),
            joined(blocks).len() as int,
        ),
{
    lemma_writes_as_one(window, blocks);
    let all = joined(blocks);
    assert(retain_latest(window, all) =~= all.subrange(
        all.len() - window.len(),
        all.len() as int,
    ));
}

/// Before that, the window holds all that was written as its most recent
/// samples, behind what is left of its earlier contents.
pub proof fn lemma_window_keeps_all<T>(window: Seq<T>, blocks: Seq<Seq<T>>)
    requires
        joined(blocks).len() <= window.len(),
    ensures
        after_writes(window, blocks) == window.subrange(
            joined(blocks).len() as int,
            window.len() as int,
        ) + joined(blocks),
{
    lemma_writes_as_one(window, blocks);
    let all = joined(blocks);
    assert(retain_latest(window, all) =~= window.subrange(all.len() as int, window.len() as int)
        + all);
}

/// A ring buffer: `capacity` slots that are overwritten in turn, so that the
/// buffer always holds the `capacity` most recent items written to it.
pub struct CircularBuffer<T> {
    buffer: Vec<T>,
    write_position: usize,
    capacity: usize,
}

impl<T: Copy> View for CircularBuffer<T> {
    type V = Seq<T>;

    /// The window, oldest item first. Its length is the capacity.
    closed spec fn view(&self) -> Seq<T> {
        unroll(self.buffer@, self.write_position as int)
    }
}

impl<T: Copy> CircularBuffer<T> {
    /// The buffer has at least one slot, its storage has exactly `capacity`
    /// slots, and the cursor points at one of them.
    pub closed spec fn wf(&self) -> bool {
        &&& self.capacity > 0
        &&& self.buffer@.len() == self.capacity
        &&& self.write_position < self.capacity
    }

    /// The slot that the next item is written to.
    pub closed spec fn cursor(&self) -> nat {
        self.write_position as nat
    }

    /// The slots in storage order, as opposed to the window in age order.
    pub closed spec fn storage(&self) -> Seq<T> {
        self.buffer@
    }

    /// The window is the storage read once around from the cursor: the
    /// oldest item stands at the cursor, the newest just before it.
    pub proof fn lemma_window_starts_at_cursor(&self)
        requires
            self.wf(),
        ensures
            self@ == unroll(self.storage(), self.cursor() as int),
            self.storage().len() == self@.len(),
            self.cursor() < self@.len(),
    {
    }

    /// A buffer of `capacity` slots, each holding `fill`, with the cursor at
    /// slot 0.
    pub fn filled(capacity: usize, fill: T) -> (r: Self)
        requires
            capacity > 0,
        ensures
            r.wf(),
            r@ == Seq::new(capacity as nat, |j: int| fill),
            r.storage() == r@,
            r.cursor() == 0,
    {
        let mut buffer: Vec<T> = Vec::with_capacity(capacity);
        let mut i: usize = 0;
        while i < capacity
            invariant
                i <= capacity,
                buffer@ == Seq::new(i as nat, |j: int| fill),
            decreases capacity - i,
        {
            buffer.push(fill);
            i = i + 1;
            assert(buffer@ =~= Seq::new(i as nat, |j: int| fill));
        }
        let r = CircularBuffer { buffer, write_position: 0, capacity };
        assert(r@ =~= Seq::new(capacity as nat, |j: int| fill));
        assert(r.storage() =~= r@);
        r
    }

    /// The number of slots.
    pub fn capacity(&self) -> (r: usize)
        requires
            self.wf(),
        ensures
            r == self@.len(),
            r > 0,
    {
        self.capacity
    }

    /// Copies `data` into the ring from the cursor on, wrapping at the end,
    /// and moves the cursor past it. Any length is accepted: of a block longer
    /// than the ring only the tail remains.
    pub fn write(&mut self, data: &[T])
        requires
            old(self).wf(),
        ensures
            final(self).wf(),
            final(self)@ == retain_latest(old(self)@, data@),
            final(self).cursor() == (old(self).cursor() + data@.len()) % old(self)@.len(),
    {
        let n: usize = data.len();
        let cap: usize = self.capacity;
        let mut pos: usize = self.write_position;
        let mut i: usize = 0;
        assert(retain_latest(old(self)@, data@.take(0)) =~= old(self)@);
        proof {
            vstd::arithmetic::div_mod::lemma_small_mod(pos as nat, cap as nat);
        }
        while i < n
            invariant
                i <= n,
                n == data@.len(),
                cap == self.capacity,
                cap > 0,
                self.buffer@.len() == cap,
                pos < cap,
                self.write_position == old(self).write_position,
                old(self).buffer@.len() == cap,
                pos == (old(self).write_position + i) % (cap as int),
                unroll(self.buffer@, pos as int) == retain_latest(old(self)@, data@.take(i as int)),
            decreases n - i,
        {
            let sample: T = data[i];
            proof {
                lemma_unroll_step(self.buffer@, pos as int, sample);
                lemma_retain_latest_push(old(self)@, data@.take(i as int), sample);
                assert(data@.take(i as int).push(sample) =~= data@.take(i + 1));
                lemma_cursor_step(old(self).write_position as int, i as int, cap as int);
            }
            self.buffer.set(pos, sample);
            pos = if pos + 1 == cap {
                0
            } else {
                pos + 1
            };
            i = i + 1;
        }
        assert(data@.take(n as int) =~= data@);
        self.write_position = pos;
    }
}

impl<T: Copy> CircularBuffer<T> {
    /// As `write`, for a block no longer than the ring, in at most two
    /// straight passes: up to the end of the storage, then from its start.
    pub fn write_fast(&mut self, data: &[T])
        requires
            old(self).wf(),
            data@.len() <= old(self)@.len(),
        ensures
            final(self).wf(),
            final(self)@ == retain_latest(old(self)@, data@),
            final(self).cursor() == (old(self).cursor() + data@.len()) % old(self)@.len(),
    {
        let n: usize = data.len();
        let cap: usize = self.capacity;
        let start: usize = self.write_position;
        let remaining_space: usize = cap - start;
        let first: usize = if n <= remaining_space {
            n
        } else {
            remaining_space
        };
        assert(retain_latest(old(self)@, data@.take(0)) =~= old(self)@);
        let mut i: usize = 0;
        while i < first
            invariant
                i <= first,
                first <= n,
                first <= cap - start,
                n == data@.len(),
                cap == self.capacity,
                self.buffer@.len() == cap,
                start < cap,
                self.write_position == start,
                old(self).buffer@.len() == cap,
                unroll(self.buffer@, wrap(start + i, cap as int)) == retain_latest(
                    old(self)@,
                    data@.take(i as int),
                ),
            decreases first - i,
        {
            let sample: T = data[i];
            proof {
                lemma_unroll_step(self.buffer@, (start + i) as int, sample);
                lemma_retain_latest_push(old(self)@, data@.take(i as int), sample);
                assert(data@.take(i as int).push(sample) =~= data@.take(i + 1));
            }
            self.buffer.set(start + i, sample);
            i = i + 1;
        }
        let mut k: usize = 0;
        while first + k < n
            invariant
                first + k <= n,
                n <= cap,
                first == n || first == cap - start,
                n == data@.len(),
                cap == self.capacity,
                self.buffer@.len() == cap,
                start < cap,
                self.write_position == start,
                old(self).buffer@.len() == cap,
                unroll(self.buffer@, wrap(start + first + k, cap as int)) == retain_latest(
                    old(self)@,
                    data@.take(first + k),
                ),
            decreases n - first - k,
        {
            let sample: T = data[first + k];
            proof {
                lemma_unroll_step(self.buffer@, k as int, sample);
                lemma_retain_latest_push(old(self)@, data@.take(first + k), sample);
                assert(data@.take(first + k).push(sample) =~= data@.take(first + k + 1));
            }
            self.buffer.set(k, sample);
            k = k + 1;
        }
        assert(data@.take(n as int) =~= data@);
        proof {
            lemma_wrap_is_mod(start as int, n as int, cap as int);
        }
        self.write_position = if n < remaining_space {
            start + n
        } else {
            n - remaining_space
        };
    }

    /// The `count` most recent items, oldest first.
    pub fn read(&self, count: usize) -> (r: Vec<T>)
        requires
            self.wf(),
            count <= self@.len(),
        ensures
            r@ == self@.subrange(self@.len() - count, self@.len() as int),
    {
        let cap: usize = self.capacity;
        let start_pos: usize = if count <= self.write_position {
            self.write_position - count
        } else {
            cap - (count - self.write_position)
        };
        let mut data: Vec<T> = Vec::with_capacity(count);
        let mut pos: usize = start_pos;
        let mut i: usize = 0;
        while i < count
            invariant
                i <= count,
                count <= cap,
                cap == self.capacity,
                self.wf(),
                pos < cap,
                pos == wrap(self.write_position + (cap - count + i), cap as int),
                data@ == self@.subrange(cap - count, cap - count + i),
            decreases count - i,
        {
            data.push(self.buffer[pos]);
            pos = if pos + 1 == cap {
                0
            } else {
                pos + 1
            };
            i = i + 1;
            assert(data@ =~= self@.subrange(cap - count, cap - count + i));
        }
        assert(data@ =~= self@.subrange(self@.len() - count, self@.len() as int));
        data
    }
}

impl<T: Copy> CircularBuffer<T> {
    /// A buffer whose window is `samples`, oldest first, with the cursor at
    /// slot 0.
    pub fn from_samples(samples: Vec<T>) -> (r: Self)
        requires
            samples@.len() > 0,
        ensures
            r.wf(),
            r@ == samples@,
            r.storage() == samples@,
            r.cursor() == 0,
    {
        let capacity: usize = samples.len();
        let r = CircularBuffer { buffer: samples, write_position: 0, capacity };
        assert(r@ =~= samples@);
        r
    }
}

impl<T: Copy + Default> CircularBuffer<T> {
    /// A buffer of `capacity` slots, each holding the default value of `T`
    /// (silence, for samples), with the cursor at slot 0.
    pub fn new(capacity: usize) -> (r: Self)
        requires
            capacity > 0,
        ensures
            r.wf(),
            r@.len() == capacity,
            r.cursor() == 0,
            forall|j: int| 0 <= j < capacity ==> call_ensures(T::default, (), #[trigger] r@[j]),
    {
        let fill: T = T::default();
        CircularBuffer::filled(capacity, fill)
    }

    /// Resizes the ring to `new_capacity` slots. A smaller ring keeps the
    /// most recent items that fit. A larger ring keeps them all as its most
    /// recent items, behind default values that stand for what was never
    /// written.
    pub fn update_capacity(&mut self, new_capacity: usize)
        requires
            old(self).wf(),
            new_capacity > 0,
        ensures
            final(self).wf(),
            final(self)@.len() == new_capacity,
            new_capacity <= old(self)@.len() ==> {
                &&& final(self)@ == old(self)@.subrange(
                    old(self)@.len() - new_capacity,
                    old(self)@.len() as int,
                )
                &&& final(self).cursor() == 0
            },
            new_capacity > old(self)@.len() ==> {
                &&& final(self)@.subrange(new_capacity - old(self)@.len(), new_capacity as int)
                    == old(self)@
                &&& final(self).cursor() == old(self)@.len()
                &&& forall|j: int|
                    0 <= j < new_capacity - old(self)@.len() ==> call_ensures(
                        T::default,
                        (),
                        #[trigger] final(self)@[j],
                    )
            },
    {
        let fill: T = T::default();
        let count: usize = if self.capacity <= new_capacity {
            self.capacity
        } else {
            new_capacity
        };
        let latest: Vec<T> = self.read(count);
        let mut new_buffer: Vec<T> = Vec::with_capacity(new_capacity);
        let mut i: usize = 0;
        while i < new_capacity
            invariant
                i <= new_capacity,
                count <= new_capacity,
                latest@.len() == count,
                new_buffer@.len() == i,
                forall|j: int| 0 <= j < i && j < count ==> new_buffer@[j] == latest@[j],
                forall|j: int| count <= j < i ==> new_buffer@[j] == fill,
            decreases new_capacity - i,
        {
            let item: T = if i < count {
                latest[i]
            } else {
                fill
            };
            new_buffer.push(item);
            i = i + 1;
        }
        self.buffer = new_buffer;
        self.capacity = new_capacity;
        self.write_position = if count == new_capacity {
            0
        } else {
            count
        };
        proof {
            let old_len = old(self)@.len() as int;
            if new_capacity <= old_len {
                assert(self@ =~= old(self)@.subrange(old_len - new_capacity, old_len));
            } else {
                assert(self@.subrange(new_capacity - old_len, new_capacity as int) =~= old(
                    self,
                )@);
            }
        }
    }
}

/// A cursor that has moved `n` slots, with `n` no more than the ring holds,
/// has wrapped at most once.
pub proof fn lemma_wrap_is_mod(start: int, n: int, len: int)
    requires
        0 <= start < len,
        0 <= n <= len,
    ensures
        (start + n) % len == wrap(start + n, len),
{
    if start + n < len {
        vstd::arithmetic::div_mod::lemma_small_mod((start + n) as nat, len as nat);
    } else {
        vstd::arithmetic::div_mod::lemma_fundamental_div_mod_converse(
            start + n,
            len,
            1,
            start + n - len,
        );
    }
}

/// The rolling window of captured audio: a ring of samples together with
/// the rate at which they were taken.
pub struct AudioBuffer<T> {
    buffer: CircularBuffer<T>,
    sample_rate: u32,
}

impl<T: Copy> View for AudioBuffer<T> {
    type V = Seq<T>;

    /// The window, oldest sample first. Its length is the capacity.
    closed spec fn view(&self) -> Seq<T> {
        self.buffer@
    }
}

/// The number of samples that `read` returns for `duration` from a window
/// of `capacity` samples at `rate`: all of them, or as many as fit in the
/// duration if that is fewer.
pub open spec fn samples_to_return(duration: Option<Duration>, rate: u32, capacity: nat) -> nat {
    match duration {
        Some(span) => {
            let wanted = samples_in(
                whole_seconds(span) as nat,
                subsecond_nanos(span) as nat,
                rate as nat,
            );
            if wanted < capacity {
                wanted
            } else {
                capacity
            }
        },
        None => capacity,
    }
}

/// What a rate change makes of sample `i` of the new window: the old sample
/// at its position where the position is whole or at the end of the window,
/// and else a blend of the two old samples around it.
pub open spec fn resampled_from<T, F: Fn(T, T, u32, u32) -> T>(
    blend: F,
    window: Seq<T>,
    old_rate: u32,
    new_rate: u32,
    i: int,
    sample: T,
) -> bool {
    let floor = source_floor(i as nat, old_rate as nat, new_rate as nat) as int;
    let ceil = source_ceil(i as nat, old_rate as nat, new_rate as nat) as int;
    let fraction = source_fraction(i as nat, old_rate as nat, new_rate as nat) as u32;
    if ceil >= window.len() {
        sample == window[floor]
    } else {
        blend.ensures((window[floor], window[ceil], fraction, new_rate), sample)
    }
}

/// For a duration whose samples fit in the window, `read` returns exactly
/// its whole samples, the product of time and rate rounded down; and it never
/// returns more than the window holds.
pub proof fn lemma_duration_read_bound(span: Duration, rate: u32, capacity: nat)
    ensures
        samples_to_return(Some(span), rate, capacity) <= capacity,
        samples_in(whole_seconds(span) as nat, subsecond_nanos(span) as nat, rate as nat)
            <= capacity ==> samples_to_return(Some(span), rate, capacity) == samples_in(
            whole_seconds(span) as nat,
            subsecond_nanos(span) as nat,
            rate as nat,
        ),
        samples_to_return(None, rate, capacity) == capacity,
{
}

impl<T: Copy> AudioBuffer<T> {
    /// The ring is well formed.
    pub closed spec fn wf(&self) -> bool {
        self.buffer.wf()
    }

    /// The rate, in samples per second, at which the window was taken.
    pub closed spec fn rate(&self) -> u32 {
        self.sample_rate
    }

    /// The slot that the next sample is written to.
    pub closed spec fn cursor(&self) -> nat {
        self.buffer.cursor()
    }

    /// The number of samples that the window holds.
    pub fn capacity(&self) -> (r: usize)
        requires
            self.wf(),
        ensures
            r == self@.len(),
            r > 0,
    {
        self.buffer.capacity()
    }

    /// The rate, in samples per second, at which the window was taken.
    pub fn sample_rate(&self) -> (r: u32)
        ensures
            r == self.rate(),
    {
        self.sample_rate
    }

    /// The rate, in samples per second, at which the window was taken.
    pub fn get_sample_rate(&self) -> (r: u32)
        ensures
            r == self.rate(),
    {
        self.sample_rate
    }

    /// Appends `data` to the window, which drops as many of its oldest
    /// samples.
    pub fn write(&mut self, data: &[T])
        requires
            old(self).wf(),
        ensures
            final(self).wf(),
            final(self)@ == retain_latest(old(self)@, data@),
            final(self).cursor() == (old(self).cursor() + data@.len()) % old(self)@.len(),
            final(self).rate() == old(self).rate(),
    {
        self.buffer.write(data);
    }

    /// As `write`, for a block no longer than the window.
    pub fn write_fast(&mut self, data: &[T])
        requires
            old(self).wf(),
            data@.len() <= old(self)@.len(),
        ensures
            final(self).wf(),
            final(self)@ == retain_latest(old(self)@, data@),
            final(self).cursor() == (old(self).cursor() + data@.len()) % old(self)@.len(),
            final(self).rate() == old(self).rate(),
    {
        self.buffer.write_fast(data);
    }

    /// The most recent samples, oldest first: the whole window, or with a
    /// duration the samples of that last stretch of time, rounded down to
    /// whole samples, and no more than the window holds.
    pub fn read(&self, duration: Option<Duration>) -> (r: Vec<T>)
        requires
            self.wf(),
        ensures
            r@.len() == samples_to_return(duration, self.rate(), self@.len()),
            r@ == self@.subrange(self@.len() - r@.len(), self@.len() as int),
    {
        let capacity: usize = self.buffer.capacity();
        let samples_to_return: usize = match duration {
            Some(span) => samples_within(&span, self.sample_rate, capacity),
            None => capacity,
        };
        self.buffer.read(samples_to_return)
    }

    /// Changes the rate of the buffer, keeping the time that it spans. With
    /// the rate it already has, nothing changes. Else the window is replaced
    /// by one of `resampled_capacity` samples, each taken from the old window
    /// at the same point in time: `blend(a, b, k, new_rate)` is asked for the
    /// value that lies `k / new_rate` of the way from `a` to `b`. The time
    /// that the window spans grows by less than one sample period of the new
    /// rate, and the cursor returns to slot 0.
    pub fn update_sample_rate<F: Fn(T, T, u32, u32) -> T>(&mut self, new_rate: u32, blend: F)
        requires
            old(self).wf(),
            old(self).rate() > 0,
            new_rate > 0,
            resampled_capacity(old(self)@.len(), old(self).rate() as nat, new_rate as nat)
                <= usize::MAX,
            forall|a: T, b: T, k: u32| k < new_rate ==> blend.requires((a, b, k, new_rate)),
        ensures
            final(self).wf(),
            final(self).rate() == new_rate,
            new_rate == old(self).rate() ==> final(self)@ == old(self)@ && final(self).cursor()
                == old(self).cursor(),
            new_rate != old(self).rate() ==> {
                &&& final(self)@.len() == resampled_capacity(
                    old(self)@.len(),
                    old(self).rate() as nat,
                    new_rate as nat,
                )
                &&& old(self)@.len() * new_rate <= final(self)@.len() * old(self).rate()
                    < old(self)@.len() * new_rate + old(self).rate()
                &&& final(self).cursor() == 0
                &&& forall|i: int|
                    0 <= i < final(self)@.len() ==> resampled_from(
                        blend,
                        old(self)@,
                        old(self).rate(),
                        new_rate,
                        i,
                        #[trigger] final(self)@[i],
                    )
            },
    {
        if self.sample_rate == new_rate {
            return ;
        }
        let old_rate: u32 = self.sample_rate;
        let old_capacity: usize = self.buffer.capacity();
        let new_capacity: usize = compute_resampled_capacity(old_capacity, old_rate, new_rate);
        proof {
            lemma_rate_change_preserves_duration(
                old_capacity as nat,
                old_rate as nat,
                new_rate as nat,
            );
            assert(new_capacity > 0) by (nonlinear_arith)
                requires
                    old_capacity as int * new_rate as int <= new_capacity as int * old_rate as int,
                    old_capacity > 0,
                    new_rate > 0,
                    old_rate > 0,
            ;
        }
        let old_data: Vec<T> = self.buffer.read(old_capacity);
        assert(old_data@ =~= old(self)@);
        let mut new_data: Vec<T> = Vec::with_capacity(new_capacity);
        let mut i: usize = 0;
        while i < new_capacity
            invariant
                i <= new_capacity,
                old_rate > 0,
                new_rate > 0,
                new_capacity == resampled_capacity(
                    old_capacity as nat,
                    old_rate as nat,
                    new_rate as nat,
                ),
                old_data@.len() == old_capacity,
                new_data@.len() == i,
                forall|a: T, b: T, k: u32| k < new_rate ==> blend.requires((a, b, k, new_rate)),
                forall|j: int|
                    0 <= j < i ==> resampled_from(
                        blend,
                        old_data@,
                        old_rate,
                        new_rate,
                        j,
                        #[trigger] new_data@[j],
                    ),
            decreases new_capacity - i,
        {
            let at: SourcePosition = source_position(i, old_capacity, old_rate, new_rate);
            let sample: T = if at.ceil >= old_capacity {
                old_data[at.floor]
            } else {
                blend(old_data[at.floor], old_data[at.ceil], at.fraction, new_rate)
            };
            new_data.push(sample);
            i = i + 1;
        }
        self.buffer = CircularBuffer::from_samples(new_data);
        self.sample_rate = new_rate;
    }
}

impl<T: Copy + Default> AudioBuffer<T> {
    /// A buffer of `capacity` samples of silence, taken to be at
    /// `sample_rate` samples per second.
    pub fn new(capacity: usize, sample_rate: u32) -> (r: Self)
        requires
            capacity > 0,
        ensures
            r.wf(),
            r@.len() == capacity,
            r.rate() == sample_rate,
            r.cursor() == 0,
            forall|j: int| 0 <= j < capacity ==> call_ensures(T::default, (), #[trigger] r@[j]),
    {
        AudioBuffer { buffer: CircularBuffer::new(capacity), sample_rate }
    }
}

/// The samples that a buffer must hold to span `duration_secs` seconds at
/// `sample_rate`: their product, or `None` where no buffer can be that large.
pub fn capacity_for(duration_secs: u64, sample_rate: u32) -> (r: Option<usize>)
    ensures
        duration_secs * sample_rate <= usize::MAX ==> r == Some(
            (duration_secs * sample_rate) as usize,
        ),
        duration_secs * sample_rate > usize::MAX ==> r is None,
{
    assert(duration_secs as int * sample_rate as int <= 0xffff_ffff_ffff_ffff * 0xffff_ffff)
        by (nonlinear_arith)
        requires
            0 <= duration_secs <= 0xffff_ffff_ffff_ffff,
            0 <= sample_rate <= 0xffff_ffff,
    ;
    let samples: u128 = (duration_secs as u128) * (sample_rate as u128);
    if samples <= usize::MAX as u128 {
        Some(samples as usize)
    } else {
        None
    }
}

/// Stepping a cursor by one: the remainder grows by one, or falls to zero at
/// the end of the ring.
pub proof fn lemma_cursor_step(start: int, i: int, len: int)
    requires
        0 <= start,
        0 <= i,
        len > 0,
    ensures
        (start + i + 1) % len == wrap((start + i) % len + 1, len),
        0 <= (start + i) % len < len,
{
    let a = start + i;
    vstd::arithmetic::div_mod::lemma_fundamental_div_mod(a, len);
    vstd::arithmetic::div_mod::lemma_mod_bound(a, len);
    let q = a / len;
    let r = a % len;
    if r + 1 < len {
        assert(a + 1 == q * len + (r + 1)) by (nonlinear_arith)
            requires
                a == len * q + r,
        ;
        vstd::arithmetic::div_mod::lemma_fundamental_div_mod_converse(a + 1, len, q, r + 1);
    } else {
        assert(a + 1 == (q + 1) * len + 0) by (nonlinear_arith)
            requires
                a == len * q + r,
                r + 1 == len,
        ;
        vstd::arithmetic::div_mod::lemma_fundamental_div_mod_converse(a + 1, len, q + 1, 0);
    }
}

} // verus!
