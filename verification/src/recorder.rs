//! Performance recorder: live per-tick latency statistics.
//!
//! The scheduler feeds every measured tick duration, in integer nanoseconds,
//! into three statistics: a histogram of all samples, a running maximum that
//! only ratchets upward, and an exponentially weighted moving average with
//! fixed decay (new = (999 * old + sample) / 1000, in nanoseconds).  The
//! moving average is an approximation of recent behaviour, not an exact mean.
//! `reset` returns all three to the empty state.

use vstd::prelude::*;
use vstd::multiset::Multiset;

verus! {

/// Largest sample the histogram accepts.  Its backing store can grow to
/// track values up to half of `i64::MAX`; larger samples would make the
/// recording call fail.
pub const MAX_RECORDABLE_NANOS: u64 = 0x3fffffffffffffff;

/// Histogram of tick latencies in nanoseconds, with fine fixed resolution
/// and an auto-expanding range.  The backing store is an always-resizable
/// `hdrhistogram::Histogram<u64>`; every value of this type originates from
/// [`LatencyHistogram::new`], which enables auto-resize.  Its counters
/// saturate at the top of `u64`; the contracts below assume sample counts
/// stay under that, which any run of this library does.
#[verifier::external_body]
pub struct LatencyHistogram {
    inner: hdrhistogram::Histogram<u64>,
}

/// The multiset of samples currently held by the histogram.
pub uninterp spec fn hist_values(h: LatencyHistogram) -> Multiset<u64>;

impl LatencyHistogram {
    /// Relies on `hdrhistogram::Histogram::new`: a fresh histogram with one
    /// significant digit, auto-resize on, and no recorded samples.  With
    /// those arguments construction cannot fail.
    #[verifier::external_body]
    pub fn new() -> (h: Self)
        ensures
            hist_values(h) == Multiset::<u64>::empty(),
    {
        LatencyHistogram { inner: hdrhistogram::Histogram::new(1).unwrap() }
    }

    /// Relies on `hdrhistogram::Histogram::record` (through `AddAssign`):
    /// one more occurrence of `v` is held afterwards.  On an auto-resizing
    /// histogram the call succeeds for any value up to half of `i64::MAX`.
    #[verifier::external_body]
    pub fn record(&mut self, v: u64)
        requires
            v <= MAX_RECORDABLE_NANOS,
        ensures
            hist_values(*final(self)) == hist_values(*old(self)).insert(v),
    {
        self.inner += v;
    }

    /// Relies on `hdrhistogram::Histogram::clear`: all counts return to
    /// zero; configuration (range, resizability) is preserved.
    #[verifier::external_body]
    pub fn clear(&mut self)
        ensures
            hist_values(*final(self)) == Multiset::<u64>::empty(),
    {
        self.inner.clear();
    }

    /// Relies on `hdrhistogram::Histogram::len`: the total number of
    /// samples recorded since the last clear.
    #[verifier::external_body]
    pub fn len(&self) -> (n: u64)
        ensures
            n == hist_values(*self).len(),
    {
        self.inner.len()
    }
}

/// One step of the running maximum: keep the larger of the old maximum and
/// the new sample.
pub open spec fn ratchet_max(m: u64, sample: u64) -> u64 {
    if sample > m {
        sample
    } else {
        m
    }
}

/// The running maximum after recording `samples` in order, starting from an
/// empty recorder.
pub open spec fn ratchet_max_all(samples: Seq<u64>) -> u64
    decreases samples.len(),
{
    if samples.len() == 0 {
        0
    } else {
        ratchet_max(ratchet_max_all(samples.drop_last()), samples.last())
    }
}

/// One step of the moving average, in integer nanoseconds.
pub open spec fn ewma_step(avg: u64, sample: u64) -> u64 {
    (((999 * (avg as int)) + sample) / 1000) as u64
}

/// Per-tick latency statistics.  Written by the scheduler after each tick,
/// read concurrently (behind the caller's synchronization) by the control
/// context.
pub struct TickStats {
    hist: LatencyHistogram,
    slowest_ns: u64,
    avg_ns: u64,
}

impl TickStats {
    /// The samples currently held by the histogram.
    pub closed spec fn samples(&self) -> Multiset<u64> {
        hist_values(self.hist)
    }

    /// The running maximum, in nanoseconds.
    pub closed spec fn max_spec(&self) -> u64 {
        self.slowest_ns
    }

    /// The moving average, in nanoseconds.
    pub closed spec fn mean_spec(&self) -> u64 {
        self.avg_ns
    }

    /// An empty recorder: no samples, zero maximum, zero average.
    pub fn new() -> (s: Self)
        ensures
            s.samples() == Multiset::<u64>::empty(),
            s.max_spec() == 0,
            s.mean_spec() == 0,
    {
        TickStats { hist: LatencyHistogram::new(), slowest_ns: 0, avg_ns: 0 }
    }

    /// Record one tick duration: add it to the histogram, ratchet the
    /// maximum, fold it into the moving average.
    pub fn record(&mut self, d: u64)
        requires
            d <= MAX_RECORDABLE_NANOS,
        ensures
            final(self).samples() == old(self).samples().insert(d),
            final(self).max_spec() == ratchet_max(old(self).max_spec(), d),
            final(self).mean_spec() == ewma_step(old(self).mean_spec(), d),
    {
        self.hist.record(d);
        if d > self.slowest_ns {
            self.slowest_ns = d;
        }
        let wide: u128 = 999u128 * (self.avg_ns as u128) + (d as u128);
        assert(wide / 1000 <= u64::MAX) by {
            assert(wide <= 999u128 * 0xffffffffffffffffu128 + 0xffffffffffffffffu128);
        }
        self.avg_ns = (wide / 1000) as u64;
    }

    /// Zero the histogram, the average, and the maximum.
    pub fn reset(&mut self)
        ensures
            final(self).samples() == Multiset::<u64>::empty(),
            final(self).max_spec() == 0,
            final(self).mean_spec() == 0,
    {
        self.hist.clear();
        self.slowest_ns = 0;
        self.avg_ns = 0;
    }

    /// The running maximum, in nanoseconds.
    pub fn max(&self) -> (m: u64)
        ensures
            m == self.max_spec(),
    {
        self.slowest_ns
    }

    /// The moving average, in nanoseconds.  An approximation with fixed
    /// decay, not an exact mean.
    pub fn mean(&self) -> (m: u64)
        ensures
            m == self.mean_spec(),
    {
        self.avg_ns
    }

    /// How many samples the histogram holds.
    pub fn sample_count(&self) -> (n: u64)
        ensures
            n == self.samples().len(),
    {
        self.hist.len()
    }
}

/// The running maximum is the true maximum.  After any sequence of recorded
/// durations since the last reset, `ratchet_max_all` of that sequence — the
/// value `max()` reports, by the contract of `record` — is an element of the
/// sequence (when it is non-empty) and no element exceeds it.
pub proof fn lemma_max_is_true_maximum(samples: Seq<u64>)
    ensures
        forall|i: int| 0 <= i < samples.len() ==> samples[i] <= ratchet_max_all(samples),
        samples.len() > 0 ==> exists|i: int|
            0 <= i < samples.len() && samples[i] == ratchet_max_all(samples),
        samples.len() == 0 ==> ratchet_max_all(samples) == 0,
    decreases samples.len(),
{
    if samples.len() > 0 {
        let head = samples.drop_last();
        lemma_max_is_true_maximum(head);
        assert(forall|i: int| 0 <= i < head.len() ==> samples[i] == head[i]);
        if samples.last() > ratchet_max_all(head) {
            assert(samples[samples.len() - 1] == ratchet_max_all(samples));
        } else {
            if head.len() > 0 {
                let j = choose|j: int|
                    0 <= j < head.len() && head[j] == ratchet_max_all(head);
                assert(samples[j] == ratchet_max_all(samples));
            }
        }
    }
}

} // verus!
