//! Tracking the rate at which frames arrive: a sliding window of the most
//! recent inter-completion time deltas, reduced to average, minimum and
//! maximum rates.
//!
//! Time is measured in integer ticks of a configurable resolution, so every
//! rate here is an exact rational, given as a numerator/denominator pair of
//! ticks-per-second over ticks. Whoever displays a rate divides the pair
//! out; an empty window yields the pair for rate zero.

use std::collections::VecDeque;
use vstd::prelude::*;

verus! {

/// Sum of a window of deltas.
pub open spec fn seq_sum(s: Seq<u64>) -> int
    decreases s.len(),
{
    if s.len() == 0 {
        0
    } else {
        s[0] + seq_sum(s.drop_first())
    }
}

/// Largest delta in a window; 0 for an empty window.
pub open spec fn seq_max(s: Seq<u64>) -> int
    decreases s.len(),
{
    if s.len() == 0 {
        0
    } else if s.len() == 1 {
        s[0] as int
    } else {
        let m = seq_max(s.drop_first());
        if s[0] >= m {
            s[0] as int
        } else {
            m
        }
    }
}

/// Smallest delta in a window; 0 for an empty window.
pub open spec fn seq_min(s: Seq<u64>) -> int
    decreases s.len(),
{
    if s.len() == 0 {
        0
    } else if s.len() == 1 {
        s[0] as int
    } else {
        let m = seq_min(s.drop_first());
        if s[0] <= m {
            s[0] as int
        } else {
            m
        }
    }
}

/// A window after one delta is pushed and the oldest entries beyond the
/// window length are evicted.
pub open spec fn evicted(window_len: int, w: Seq<u64>) -> Seq<u64> {
    if w.len() <= window_len {
        w
    } else {
        w.skip(w.len() - window_len)
    }
}

/// The delta recorded by a sample taken at `now` when the previous sample
/// was taken at `last`: their distance, or zero if the clock stood still or
/// stepped backwards.
pub open spec fn spec_delta(last: u64, now: u64) -> u64 {
    if now >= last {
        (now - last) as u64
    } else {
        0
    }
}

/// The rate at which some event recurs, observed over a sliding window of
/// the most recent inter-event time deltas.
///
/// The wider the window, the smoother the reported rates.
#[derive(Clone, Debug)]
pub struct Fps {
    /// How many deltas the window retains.
    pub window_len: usize,
    /// Tick resolution of the clock that feeds [`Fps::sample`].
    pub ticks_per_sec: u64,
    /// The retained deltas, oldest first. Never longer than `window_len`;
    /// the methods require [`Fps::wf`], which says so.
    pub window: VecDeque<u64>,
    /// When the last sample was taken, in ticks.
    pub last: u64,
}

/// One reduced reading of the rate window, as exact rationals: the average
/// rate is the sample count over the summed period, the minimum rate comes
/// from the longest delta and the maximum rate from the shortest. An empty
/// window reads as zero on all three.
#[derive(Clone, Copy, Debug, PartialEq, Eq, Structural)]
pub struct RateSample {
    pub avg_num: u128,
    pub avg_den: u128,
    pub min_num: u64,
    pub min_den: u64,
    pub max_num: u64,
    pub max_den: u64,
}

impl View for Fps {
    type V = Seq<u64>;

    open spec fn view(&self) -> Seq<u64> {
        self.window@
    }
}

impl Fps {
    /// The window length used by the default constructor.
    pub const DEFAULT_WINDOW_LEN: usize = 60;

    /// The tick resolution used by the default constructors: nanoseconds.
    pub const DEFAULT_TICKS_PER_SEC: u64 = 1000000000;

    /// The window never outgrows its configured length.
    pub open spec fn wf(&self) -> bool {
        self.window@.len() <= self.window_len
    }

    /// The average rate over the window as a numerator/denominator pair:
    /// sample count times ticks per second, over the summed deltas. The
    /// pair for zero on an empty window.
    pub open spec fn spec_avg(&self) -> (int, int) {
        if self@.len() == 0 {
            (0, 1)
        } else {
            (self@.len() * self.ticks_per_sec, seq_sum(self@))
        }
    }

    /// The minimum rate over the window: ticks per second over the longest
    /// delta. The pair for zero on an empty window.
    pub open spec fn spec_min(&self) -> (int, int) {
        if self@.len() == 0 {
            (0, 1)
        } else {
            (self.ticks_per_sec as int, seq_max(self@))
        }
    }

    /// The maximum rate over the window: ticks per second over the shortest
    /// delta. The pair for zero on an empty window.
    pub open spec fn spec_max(&self) -> (int, int) {
        if self@.len() == 0 {
            (0, 1)
        } else {
            (self.ticks_per_sec as int, seq_min(self@))
        }
    }

    /// A new tracker with the given window length, counting time in
    /// nanoseconds.
    pub fn with_window_len(window_len: usize) -> (fps: Self)
        ensures
            fps.window_len == window_len,
            fps.ticks_per_sec == Self::DEFAULT_TICKS_PER_SEC,
            fps@ == Seq::<u64>::empty(),
            fps.last == 0,
            fps.wf(),
    {
        Self::with_window_len_and_tick_rate(window_len, Self::DEFAULT_TICKS_PER_SEC)
    }

    /// A new tracker with the given window length, counting time in ticks
    /// of the given resolution.
    pub fn with_window_len_and_tick_rate(window_len: usize, ticks_per_sec: u64) -> (fps: Self)
        ensures
            fps.window_len == window_len,
            fps.ticks_per_sec == ticks_per_sec,
            fps@ == Seq::<u64>::empty(),
            fps.last == 0,
            fps.wf(),
    {
        let window: VecDeque<u64> = VecDeque::new();
        Fps { window_len, ticks_per_sec, window, last: 0 }
    }

    /// Record one event at time `now`: push the delta since the previous
    /// sample and evict the oldest deltas beyond the window length.
    pub fn sample(&mut self, now: u64)
        requires
            old(self).wf(),
        ensures
            final(self).wf(),
            final(self).window_len == old(self).window_len,
            final(self).ticks_per_sec == old(self).ticks_per_sec,
            final(self).last == now,
            final(self)@ == evicted(
                old(self).window_len as int,
                old(self)@.push(spec_delta(old(self).last, now)),
            ),
    {
        let delta: u64 = if now >= self.last {
            now - self.last
        } else {
            0
        };
        self.last = now;
        self.window.push_back(delta);
        let ghost pushed = self.window@;
        let ghost wl = self.window_len;
        let ghost tps = self.ticks_per_sec;
        while self.window.len() > self.window_len
            invariant
                self.window_len == wl,
                self.ticks_per_sec == tps,
                self.last == now,
                self.window@.len() <= pushed.len(),
                self.window@ == pushed.skip(pushed.len() - self.window@.len()),
                pushed.len() <= wl ==> self.window@.len() == pushed.len(),
                pushed.len() > wl ==> self.window@.len() >= wl,
            decreases self.window@.len(),
        {
            let ghost before = self.window@;
            let _popped = self.window.pop_front();
            proof {
                let k = pushed.len() - before.len();
                assert(before.subrange(1, before.len() as int) =~= pushed.skip(k + 1));
            }
        }
        proof {
            if pushed.len() <= wl {
                assert(pushed.skip(0) =~= pushed);
                assert(self.window@ =~= evicted(wl as int, pushed));
            } else {
                assert(self.window@.len() == wl);
                assert(self.window@ =~= evicted(wl as int, pushed));
            }
        }
    }

    /// The average rate as an exact numerator/denominator pair.
    pub fn avg(&self) -> (r: (u128, u128))
        ensures
            r.0 == self.spec_avg().0,
            r.1 == self.spec_avg().1,
    {
        if self.window.len() == 0 {
            (0, 1)
        } else {
            proof {
                lemma_seq_sum_bounds(self@);
                assert((self@.len() as int) * (u64::MAX as int) < u128::MAX) by (nonlinear_arith)
                    requires
                        self@.len() < 0x10000000000000000,
                ;
                assert((self@.len() as int) * (self.ticks_per_sec as int) < u128::MAX)
                    by (nonlinear_arith)
                    requires
                        self@.len() < 0x10000000000000000,
                        self.ticks_per_sec < 0x10000000000000000,
                ;
            }
            let mut sum: u128 = 0;
            let mut i: usize = 0;
            assert(self@.take(0) =~= Seq::<u64>::empty());
            while i < self.window.len()
                invariant
                    i <= self@.len(),
                    sum == seq_sum(self@.take(i as int)),
                    seq_sum(self@) <= self@.len() * (u64::MAX as int),
                    (self@.len() as int) * (u64::MAX as int) < u128::MAX,
                decreases self@.len() - i,
            {
                proof {
                    lemma_seq_sum_snoc(self@.take(i as int), self@[i as int]);
                    assert(self@.take(i + 1) =~= self@.take(i as int).push(self@[i as int]));
                    lemma_seq_sum_bounds(self@.take(i + 1));
                    lemma_seq_sum_prefix_bound(self@, i + 1);
                }
                sum = sum + (self.window[i] as u128);
                i += 1;
            }
            assert(self@.take(self@.len() as int) =~= self@);
            let count: u128 = self.window.len() as u128;
            (count * (self.ticks_per_sec as u128), sum)
        }
    }

    /// The minimum rate as an exact numerator/denominator pair.
    pub fn min(&self) -> (r: (u64, u64))
        ensures
            r.0 == self.spec_min().0,
            r.1 == self.spec_min().1,
    {
        if self.window.len() == 0 {
            (0, 1)
        } else {
            let mut m: u64 = self.window[0];
            let mut i: usize = 1;
            assert(self@.take(1) =~= seq![self@[0]]);
            while i < self.window.len()
                invariant
                    1 <= i <= self@.len(),
                    m == seq_max(self@.take(i as int)),
                decreases self@.len() - i,
            {
                proof {
                    lemma_seq_max_snoc(self@.take(i as int), self@[i as int]);
                    assert(self@.take(i + 1) =~= self@.take(i as int).push(self@[i as int]));
                }
                let d = self.window[i];
                if d > m {
                    m = d;
                }
                i += 1;
            }
            assert(self@.take(self@.len() as int) =~= self@);
            (self.ticks_per_sec, m)
        }
    }

    /// The maximum rate as an exact numerator/denominator pair.
    pub fn max(&self) -> (r: (u64, u64))
        ensures
            r.0 == self.spec_max().0,
            r.1 == self.spec_max().1,
    {
        if self.window.len() == 0 {
            (0, 1)
        } else {
            let mut m: u64 = self.window[0];
            let mut i: usize = 1;
            assert(self@.take(1) =~= seq![self@[0]]);
            while i < self.window.len()
                invariant
                    1 <= i <= self@.len(),
                    m == seq_min(self@.take(i as int)),
                decreases self@.len() - i,
            {
                proof {
                    lemma_seq_min_snoc(self@.take(i as int), self@[i as int]);
                    assert(self@.take(i + 1) =~= self@.take(i as int).push(self@[i as int]));
                }
                let d = self.window[i];
                if d < m {
                    m = d;
                }
                i += 1;
            }
            assert(self@.take(self@.len() as int) =~= self@);
            (self.ticks_per_sec, m)
        }
    }

    /// All three rates of the current window in one reading.
    pub fn rate_sample(&self) -> (r: RateSample)
        ensures
            r.avg_num == self.spec_avg().0,
            r.avg_den == self.spec_avg().1,
            r.min_num == self.spec_min().0,
            r.min_den == self.spec_min().1,
            r.max_num == self.spec_max().0,
            r.max_den == self.spec_max().1,
    {
        let avg = self.avg();
        let min = self.min();
        let max = self.max();
        RateSample {
            avg_num: avg.0,
            avg_den: avg.1,
            min_num: min.0,
            min_den: min.1,
            max_num: max.0,
            max_den: max.1,
        }
    }
}

impl Default for Fps {
    /// A tracker over the default window length, counting in nanoseconds.
    fn default() -> (fps: Self)
        ensures
            fps.window_len == Fps::DEFAULT_WINDOW_LEN,
            fps.ticks_per_sec == Fps::DEFAULT_TICKS_PER_SEC,
            fps@ == Seq::<u64>::empty(),
            fps.last == 0,
            fps.wf(),
    {
        Fps::with_window_len(Fps::DEFAULT_WINDOW_LEN)
    }
}

/// Appending one delta adds it to the sum.
pub proof fn lemma_seq_sum_snoc(s: Seq<u64>, x: u64)
    ensures
        seq_sum(s.push(x)) == seq_sum(s) + x,
    decreases s.len(),
{
    if s.len() == 0 {
        assert(s.push(x).drop_first() =~= Seq::<u64>::empty());
        assert(seq_sum(Seq::<u64>::empty()) == 0);
        assert(s.push(x)[0] == x);
    } else {
        assert(s.push(x).drop_first() =~= s.drop_first().push(x));
        lemma_seq_sum_snoc(s.drop_first(), x);
        assert(s.push(x)[0] == s[0]);
    }
}

/// A sum of deltas is non-negative and at most the count times the largest
/// possible delta.
pub proof fn lemma_seq_sum_bounds(s: Seq<u64>)
    ensures
        0 <= seq_sum(s),
        seq_sum(s) <= s.len() * (u64::MAX as int),
    decreases s.len(),
{
    if s.len() == 0 {
    } else {
        lemma_seq_sum_bounds(s.drop_first());
        assert(seq_sum(s) <= u64::MAX + (s.len() - 1) * (u64::MAX as int));
        assert(u64::MAX + (s.len() - 1) * (u64::MAX as int) == s.len() * (u64::MAX as int))
            by (nonlinear_arith);
    }
}

/// A prefix of the window cannot out-sum the whole window.
pub proof fn lemma_seq_sum_prefix_bound(s: Seq<u64>, n: int)
    requires
        0 <= n <= s.len(),
    ensures
        seq_sum(s.take(n)) <= seq_sum(s),
    decreases s.len() - n,
{
    if n == s.len() {
        assert(s.take(n) =~= s);
    } else {
        lemma_seq_sum_snoc(s.take(n), s[n]);
        assert(s.take(n + 1) =~= s.take(n).push(s[n]));
        lemma_seq_sum_prefix_bound(s, n + 1);
    }
}

/// Appending one delta to a window takes the running maximum to whichever of
/// the old maximum and the new delta is larger.
pub proof fn lemma_seq_max_snoc(s: Seq<u64>, x: u64)
    requires
        s.len() > 0,
    ensures
        seq_max(s.push(x)) == if x > seq_max(s) {
            x as int
        } else {
            seq_max(s)
        },
    decreases s.len(),
{
    if s.len() == 1 {
        assert(s.push(x).drop_first() =~= seq![x]);
        assert(seq_max(seq![x]) == x);
        assert(s.push(x)[0] == s[0]);
    } else {
        assert(s.push(x).drop_first() =~= s.drop_first().push(x));
        lemma_seq_max_snoc(s.drop_first(), x);
        assert(s.push(x)[0] == s[0]);
    }
}

/// Appending one delta to a window takes the running minimum to whichever of
/// the old minimum and the new delta is smaller.
pub proof fn lemma_seq_min_snoc(s: Seq<u64>, x: u64)
    requires
        s.len() > 0,
    ensures
        seq_min(s.push(x)) == if x < seq_min(s) {
            x as int
        } else {
            seq_min(s)
        },
    decreases s.len(),
{
    if s.len() == 1 {
        assert(s.push(x).drop_first() =~= seq![x]);
        assert(seq_min(seq![x]) == x);
        assert(s.push(x)[0] == s[0]);
    } else {
        assert(s.push(x).drop_first() =~= s.drop_first().push(x));
        lemma_seq_min_snoc(s.drop_first(), x);
        assert(s.push(x)[0] == s[0]);
    }
}

/// The window a run of deltas leaves behind, each pushed and evicted in
/// turn.
pub open spec fn feed_deltas(window_len: int, w: Seq<u64>, ds: Seq<u64>) -> Seq<u64>
    decreases ds.len(),
{
    if ds.len() == 0 {
        w
    } else {
        feed_deltas(window_len, evicted(window_len, w.push(ds[0])), ds.drop_first())
    }
}

/// LAW: window eviction — after any run of samples the window holds exactly
/// the most recent deltas, at most the window length of them; once at least
/// a window length of samples has arrived, only the most recent
/// `window_len` deltas remain, whatever came before.
pub proof fn lemma_window_eviction(window_len: int, w: Seq<u64>, ds: Seq<u64>)
    requires
        0 <= window_len,
        w.len() <= window_len,
    ensures
        feed_deltas(window_len, w, ds) == evicted(window_len, w + ds),
        ds.len() >= window_len ==> feed_deltas(window_len, w, ds) == ds.skip(
            ds.len() - window_len,
        ),
    decreases ds.len(),
{
    if ds.len() == 0 {
        assert(w + ds =~= w);
        if ds.len() >= window_len {
            assert(feed_deltas(window_len, w, ds) =~= ds.skip(ds.len() - window_len));
        }
    } else {
        let a = w.push(ds[0]);
        let w1 = evicted(window_len, a);
        lemma_window_eviction(window_len, w1, ds.drop_first());
        assert(a + ds.drop_first() =~= w + ds);
        if a.len() <= window_len {
            assert(w1 + ds.drop_first() =~= w + ds);
        } else {
            assert(a.len() == window_len + 1);
            assert(w1 =~= a.skip(1));
            assert(a.skip(1) + ds.drop_first() =~= (w + ds).skip(1));
            let whole = w + ds;
            let tail = whole.skip(1);
            if tail.len() <= window_len {
                assert(evicted(window_len, tail) == tail);
                assert(whole.len() - window_len == 1);
                assert(evicted(window_len, whole) =~= tail);
            } else {
                assert(evicted(window_len, tail) == tail.skip(tail.len() - window_len));
                assert(tail.skip(tail.len() - window_len) =~= whole.skip(
                    whole.len() - window_len,
                ));
            }
        }
        if ds.len() >= window_len {
            assert((w + ds).skip(w.len() + ds.len() - window_len) =~= ds.skip(
                ds.len() - window_len,
            ));
        }
    }
}

} // verus!
