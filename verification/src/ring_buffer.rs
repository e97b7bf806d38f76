//! A sliding window over a stream of samples, kept in a ring of fixed
//! capacity.
//!
//! Each push hands back the sample that leaves the window, so that a caller
//! can keep a running sum of the window in constant time per sample.
use vstd::prelude::*;
use crate::constants::{MAX_RMS_WINDOW_MS, MAX_SAMPLE_RATE, RING_BUFFER_MAX_CAPACITY};
use crate::math_utils::{lemma_samples_in_monotone, samples_in};

verus! {

/// The window length that a request is held to: at least one sample, at
/// most the ring's capacity.
pub open spec fn clamp_window_len(window_len: nat) -> nat {
    if window_len < 1 {
        1
    } else if window_len > RING_BUFFER_MAX_CAPACITY {
        RING_BUFFER_MAX_CAPACITY as nat
    } else {
        window_len
    }
}

/// The last `k` items of `s`, or all of `s` where it is shorter.
pub open spec fn latest<T>(s: Seq<T>, k: nat) -> Seq<T> {
    if s.len() <= k {
        s
    } else {
        s.subrange(s.len() - k, s.len() as int)
    }
}

/// What a `RingBuffer` holds, as plain mathematical values.
pub struct Window<T> {
    /// The samples in the window, oldest first.
    pub samples: Seq<T>,
    /// The most samples that the window holds.
    pub window_len: nat,
    /// How many samples were pushed since the last reset; the count stops at
    /// the top of its range.
    pub written: nat,
    /// The value of a slot that no sample was written to.
    pub fill: T,
}

impl<T> Window<T> {
    /// The window of a real ring: its length is within the ring's bounds,
    /// and it holds as many samples as were written, up to its length.
    pub open spec fn wf(self) -> bool {
        &&& 1 <= self.window_len <= RING_BUFFER_MAX_CAPACITY
        &&& self.written <= u64::MAX
        &&& self.samples.len() == if self.written < self.window_len {
            self.written
        } else {
            self.window_len
        }
    }

    /// The empty window of the given length.
    pub open spec fn empty(window_len: nat, fill: T) -> Self {
        Window { samples: Seq::empty(), window_len, written: 0, fill }
    }

    /// Whether the window holds as many samples as it can.
    pub open spec fn is_full(self) -> bool {
        self.samples.len() >= self.window_len
    }

    /// The sample that the next push takes out of the window: the oldest
    /// one of a full window, the fill value before that.
    pub open spec fn evicted(self) -> T {
        if self.is_full() {
            self.samples[0]
        } else {
            self.fill
        }
    }

    /// The window after a push: the new sample is the youngest, and a full
    /// window loses its oldest.
    pub open spec fn pushed(self, sample: T) -> Self {
        Window {
            samples: if self.is_full() {
                self.samples.drop_first().push(sample)
            } else {
                self.samples.push(sample)
            },
            written: if self.written < u64::MAX {
                self.written + 1
            } else {
                self.written
            },
            ..self
        }
    }

    /// The window after pushing all of `samples`, first to last.
    pub open spec fn pushed_all(self, samples: Seq<T>) -> Self
        decreases samples.len(),
    {
        if samples.len() == 0 {
            self
        } else {
            self.pushed_all(samples.drop_last()).pushed(samples.last())
        }
    }
}

/// The slots of a ring with its cursor and counts.
struct Slots<T> {
    buffer: Vec<T>,
    write_pos: usize,
    window_len: usize,
    samples_written: u64,
    fill: T,
}

impl<T: Copy> Slots<T> {
    /// All slots exist, the window is within the ring, the write cursor is
    /// within the window, and until the window has filled the cursor counts
    /// the samples and the slots ahead of it hold the fill value.
    spec fn wf(&self) -> bool {
        &&& self.buffer@.len() == RING_BUFFER_MAX_CAPACITY
        &&& 1 <= self.window_len <= RING_BUFFER_MAX_CAPACITY
        &&& self.write_pos < self.window_len
        &&& self.samples_written < self.window_len ==> {
            &&& self.write_pos == self.samples_written
            &&& forall|j: int|
                self.samples_written <= j < self.window_len ==> self.buffer@[j] == self.fill
        }
    }

    /// The window that the slots hold: before it has filled, the slots
    /// behind the cursor; after that, all slots of the window, read from
    /// the cursor round to the slot before it.
    spec fn window(&self) -> Window<T> {
        Window {
            samples: if self.samples_written < self.window_len {
                self.buffer@.subrange(0, self.samples_written as int)
            } else {
                self.buffer@.subrange(self.write_pos as int, self.window_len as int)
                    + self.buffer@.subrange(0, self.write_pos as int)
            },
            window_len: self.window_len as nat,
            written: self.samples_written as nat,
            fill: self.fill,
        }
    }

    fn push(&mut self, sample: T) -> (evicted: T)
        requires
            old(self).wf(),
        ensures
            final(self).wf(),
            final(self).window() == old(self).window().pushed(sample),
            evicted == old(self).window().evicted(),
        no_unwind
    {
        let pos: usize = self.write_pos;
        let evicted = self.buffer[pos];
        self.buffer[pos] = sample;
        self.write_pos = if pos + 1 >= self.window_len {
            0
        } else {
            pos + 1
        };
        if self.samples_written < u64::MAX {
            self.samples_written = self.samples_written + 1;
        }
        proof {
            assert(self.buffer@ == old(self).buffer@.update(pos as int, sample));
            if old(self).samples_written < old(self).window_len {
                assert(self.window().samples =~= old(self).window().samples.push(sample));
            } else {
                assert(old(self).window().samples[0] == old(self).buffer@[pos as int]);
                assert(self.window().samples =~= old(self).window().samples.drop_first().push(
                    sample,
                ));
            }
        }
        evicted
    }

    /// Empty the window and give it the length `window_len`.
    fn clear(&mut self, window_len: usize)
        requires
            old(self).wf(),
            1 <= window_len <= RING_BUFFER_MAX_CAPACITY,
        ensures
            final(self).wf(),
            final(self).window() == Window::empty(window_len as nat, old(self).fill),
        no_unwind
    {
        let fill = self.fill;
        let mut i: usize = 0;
        while i < window_len
            invariant
                i <= window_len <= RING_BUFFER_MAX_CAPACITY,
                self.buffer@.len() == RING_BUFFER_MAX_CAPACITY,
                self.fill == fill,
                forall|j: int| 0 <= j < i ==> self.buffer@[j] == fill,
            decreases window_len - i,
        {
            self.buffer[i] = fill;
            i += 1;
        }
        self.write_pos = 0;
        self.window_len = window_len;
        self.samples_written = 0;
        assert(self.window().samples =~= Seq::empty());
    }
}

/// Fixed-capacity ring buffer that keeps the latest `window_len` samples of
/// a stream.
pub struct RingBuffer<T: Copy> {
    slots: Slots<T>,
}

impl<T: Copy> View for RingBuffer<T> {
    type V = Window<T>;

    closed spec fn view(&self) -> Window<T> {
        self.slots.window()
    }
}

impl<T: Copy> RingBuffer<T> {
    /// The slots are well formed.
    #[verifier::type_invariant]
    closed spec fn inv(&self) -> bool {
        self.slots.wf()
    }

    /// An empty ring with a window of `window_len` samples, held to the
    /// range from one sample to the ring's capacity. Unwritten slots hold
    /// `fill`.
    pub fn new(window_len: usize, fill: T) -> (ring: Self)
        ensures
            ring@.wf(),
            ring@ == Window::empty(clamp_window_len(window_len as nat), fill),
    {
        let window_len: usize = if window_len < 1 {
            1
        } else if window_len > RING_BUFFER_MAX_CAPACITY {
            RING_BUFFER_MAX_CAPACITY
        } else {
            window_len
        };
        let mut buffer: Vec<T> = Vec::with_capacity(RING_BUFFER_MAX_CAPACITY);
        let mut i: usize = 0;
        while i < RING_BUFFER_MAX_CAPACITY
            invariant
                i <= RING_BUFFER_MAX_CAPACITY,
                buffer@.len() == i,
                forall|j: int| 0 <= j < i ==> buffer@[j] == fill,
            decreases RING_BUFFER_MAX_CAPACITY - i,
        {
            buffer.push(fill);
            i += 1;
        }
        let slots = Slots { buffer, write_pos: 0, window_len, samples_written: 0, fill };
        assert(slots.window().samples =~= Seq::empty());
        RingBuffer { slots }
    }

    /// Push a sample into the window and return the sample that leaves it:
    /// the oldest sample of a full window, the fill value before that.
    pub fn push(&mut self, sample: T) -> (evicted: T)
        ensures
            final(self)@.wf(),
            final(self)@ == old(self)@.pushed(sample),
            evicted == old(self)@.evicted(),
    {
        proof {
            use_type_invariant(&*self);
        }
        self.slots.push(sample)
    }

    /// The number of samples in the window: the samples written since the
    /// last reset, up to the window length.
    pub fn len(&self) -> (count: usize)
        ensures
            self@.wf(),
            count == self@.samples.len(),
    {
        proof {
            use_type_invariant(self);
        }
        if self.slots.samples_written < self.slots.window_len as u64 {
            self.slots.samples_written as usize
        } else {
            self.slots.window_len
        }
    }

    /// How many samples were pushed since the last reset; the count stops
    /// at the top of its range.
    pub fn samples_written(&self) -> (written: u64)
        ensures
            self@.wf(),
            written == self@.written,
    {
        proof {
            use_type_invariant(self);
        }
        self.slots.samples_written
    }

    /// Reset the buffer to the empty state, keeping the window length.
    pub fn reset(&mut self)
        ensures
            final(self)@.wf(),
            final(self)@ == Window::empty(old(self)@.window_len, old(self)@.fill),
    {
        proof {
            use_type_invariant(&*self);
        }
        let window_len: usize = self.slots.window_len;
        self.slots.clear(window_len);
    }

    /// Change the window length, held to the range from one sample to the
    /// ring's capacity, and reset the buffer.
    pub fn set_window_len(&mut self, window_len: usize)
        ensures
            final(self)@.wf(),
            final(self)@ == Window::empty(clamp_window_len(window_len as nat), old(self)@.fill),
    {
        proof {
            use_type_invariant(&*self);
        }
        let window_len: usize = if window_len < 1 {
            1
        } else if window_len > RING_BUFFER_MAX_CAPACITY {
            RING_BUFFER_MAX_CAPACITY
        } else {
            window_len
        };
        self.slots.clear(window_len);
    }

    /// The most samples that the window holds.
    pub fn window_len(&self) -> (window_len: usize)
        ensures
            self@.wf(),
            window_len == self@.window_len,
    {
        proof {
            use_type_invariant(self);
        }
        self.slots.window_len
    }
}

/// A push keeps a window well formed.
pub proof fn lemma_push_keeps_wf<T>(w: Window<T>, sample: T)
    requires
        w.wf(),
    ensures
        w.pushed(sample).wf(),
        w.pushed(sample).window_len == w.window_len,
        w.pushed(sample).fill == w.fill,
{
}

/// The window slides over the stream: after any sequence of pushes it holds
/// the latest samples, as many as its length allows, oldest first.
pub proof fn lemma_window_holds_latest<T>(w: Window<T>, samples: Seq<T>)
    requires
        w.wf(),
    ensures
        w.pushed_all(samples).wf(),
        w.pushed_all(samples).window_len == w.window_len,
        w.pushed_all(samples).fill == w.fill,
        w.pushed_all(samples).samples == latest(w.samples + samples, w.window_len),
    decreases samples.len(),
{
    if samples.len() == 0 {
        assert(w.samples + samples =~= w.samples);
        assert(latest(w.samples, w.window_len) =~= w.samples);
    } else {
        let front = samples.drop_last();
        let mid = w.pushed_all(front);
        lemma_window_holds_latest(w, front);
        lemma_push_keeps_wf(mid, samples.last());
        assert(w.samples + samples =~= (w.samples + front).push(samples.last()));
        assert(mid.pushed(samples.last()).samples =~= latest(
            w.samples + samples,
            w.window_len,
        ));
    }
}

/// A window whose requested length is at or above the ring's capacity has
/// exactly the capacity as its length.
pub proof fn lemma_window_len_held_to_capacity(window_len: nat)
    ensures
        1 <= clamp_window_len(window_len) <= RING_BUFFER_MAX_CAPACITY,
        window_len >= RING_BUFFER_MAX_CAPACITY ==> clamp_window_len(window_len)
            == RING_BUFFER_MAX_CAPACITY,
        1 <= window_len <= RING_BUFFER_MAX_CAPACITY ==> clamp_window_len(window_len) == window_len,
{
}

/// The ring has room for the longest level-detection window at every
/// sample rate up to the highest one: such a window is never cut short.
pub proof fn lemma_longest_window_fits(window_ms: nat, sample_rate: nat)
    requires
        window_ms <= MAX_RMS_WINDOW_MS,
        sample_rate <= MAX_SAMPLE_RATE,
    ensures
        samples_in(window_ms, sample_rate) <= RING_BUFFER_MAX_CAPACITY,
        samples_in(window_ms, sample_rate) >= 1 ==> clamp_window_len(
            samples_in(window_ms, sample_rate),
        ) == samples_in(window_ms, sample_rate),
{
    lemma_samples_in_monotone(
        window_ms,
        sample_rate,
        MAX_RMS_WINDOW_MS as nat,
        MAX_SAMPLE_RATE as nat,
    );
    assert(samples_in(MAX_RMS_WINDOW_MS as nat, MAX_SAMPLE_RATE as nat) == 19200);
}

/// The sum of the samples of a window, in exact arithmetic.
pub open spec fn window_sum(samples: Seq<real>) -> real
    decreases samples.len(),
{
    if samples.len() == 0 {
        0real
    } else {
        window_sum(samples.drop_last()) + samples.last()
    }
}

/// The mean of the samples in a window, in exact arithmetic; the mean of an
/// empty window is zero.
pub open spec fn window_mean(w: Window<real>) -> real {
    if w.samples.len() == 0 {
        0real
    } else {
        window_sum(w.samples) / (w.samples.len() as real)
    }
}

/// The sum of a window is its oldest sample plus the sum of the rest.
proof fn lemma_window_sum_from_front(samples: Seq<real>)
    requires
        samples.len() > 0,
    ensures
        window_sum(samples) == samples[0] + window_sum(samples.drop_first()),
    decreases samples.len(),
{
    if samples.len() == 1 {
        assert(samples.drop_last() =~= Seq::<real>::empty());
        assert(samples.drop_first() =~= Seq::<real>::empty());
    } else {
        let body = samples.drop_last();
        lemma_window_sum_from_front(body);
        assert(body.drop_first() =~= samples.drop_first().drop_last());
        assert(samples.drop_first().last() == samples.last());
        assert(body[0] == samples[0]);
    }
}

/// The running sum: in a ring over real numbers whose fill value is zero,
/// taking the evicted sample off the sum of the window and adding the new
/// sample gives the sum of the window after the push.
pub proof fn lemma_running_sum(w: Window<real>, sample: real)
    requires
        w.wf(),
        w.fill == 0real,
    ensures
        window_sum(w.pushed(sample).samples) == window_sum(w.samples) - w.evicted() + sample,
{
    if w.is_full() {
        lemma_window_sum_from_front(w.samples);
        let rest = w.samples.drop_first();
        assert(rest.push(sample).drop_last() =~= rest);
    } else {
        assert(w.samples.push(sample).drop_last() =~= w.samples);
    }
}

/// A window of samples none of which is negative has a sum and a mean that
/// are not negative.
pub proof fn lemma_mean_nonnegative(w: Window<real>)
    requires
        forall|i: int| 0 <= i < w.samples.len() ==> w.samples[i] >= 0real,
    ensures
        window_sum(w.samples) >= 0real,
        window_mean(w) >= 0real,
    decreases w.samples.len(),
{
    if w.samples.len() > 0 {
        let front = Window { samples: w.samples.drop_last(), ..w };
        lemma_mean_nonnegative(front);
        let sum = window_sum(w.samples);
        let count = w.samples.len() as real;
        assert(sum / count >= 0real) by (nonlinear_arith)
            requires
                sum >= 0real,
                count > 0real,
        ;
    }
}

/// After any sequence of pushes of samples none of which is negative, into
/// a window that held no negative sample, the mean of the window is not
/// negative.
pub proof fn lemma_mean_nonnegative_after_pushes(w: Window<real>, samples: Seq<real>)
    requires
        w.wf(),
        forall|i: int| 0 <= i < w.samples.len() ==> w.samples[i] >= 0real,
        forall|i: int| 0 <= i < samples.len() ==> samples[i] >= 0real,
    ensures
        window_sum(w.pushed_all(samples).samples) >= 0real,
        window_mean(w.pushed_all(samples)) >= 0real,
{
    lemma_window_holds_latest(w, samples);
    lemma_mean_nonnegative(w.pushed_all(samples));
}

} // verus!
