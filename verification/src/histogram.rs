//! The latency histogram: one counter for each whole microsecond below ten milliseconds, one
//! for everything above, and the percentiles read from them.

use vstd::prelude::*;

verus! {

/// The number of counters.
pub const BUCKETS: usize = 10_001;

/// The counter for latencies of ten milliseconds and more.
pub const OVERFLOW_BUCKET: usize = 10_000;

/// The number of samples that a benchmark records.
pub const BENCHMARK_SAMPLES: u64 = 1_000_000;

/// The counter that a latency of `nanos` nanoseconds falls into.
pub open spec fn bucket_of(nanos: u64) -> int {
    if nanos / 1000 < OVERFLOW_BUCKET {
        nanos as int / 1000
    } else {
        OVERFLOW_BUCKET as int
    }
}

/// The sum of the first `n` counters.
pub open spec fn total(counts: Seq<u64>, n: int) -> int
    decreases n,
{
    if n <= 0 {
        0
    } else {
        total(counts, n - 1) + counts[n - 1]
    }
}

/// The histogram as a mathematical value.
pub struct HistogramView {
    pub counts: Seq<u64>,
    pub sum_ns: nat,
    pub samples: nat,
}

impl HistogramView {
    /// The number of samples of at most `us` microseconds.
    pub open spec fn cumulative(self, us: int) -> int {
        total(self.counts, us + 1)
    }

    /// Whether the samples of at most `us` microseconds are at least `permille` thousandths of
    /// all samples.
    pub open spec fn reaches(self, us: int, permille: u64) -> bool {
        self.cumulative(us) * 1000 >= self.samples * permille
    }

    /// Whether `us` is the percentile for `permille`: the least microsecond count that reaches
    /// it, or the overflow counter if none does.
    pub open spec fn is_percentile(self, us: int, permille: u64) -> bool {
        &&& 0 <= us <= OVERFLOW_BUCKET
        &&& forall|j: int| 0 <= j < us ==> !self.reaches(j, permille)
        &&& self.reaches(us, permille) || us == OVERFLOW_BUCKET
    }

    /// The histogram after one more sample of `nanos` nanoseconds.
    pub open spec fn record(self, nanos: u64) -> HistogramView {
        HistogramView {
            counts: self.counts.update(
                bucket_of(nanos),
                (self.counts[bucket_of(nanos)] + 1) as u64,
            ),
            sum_ns: self.sum_ns + nanos as nat,
            samples: self.samples + 1,
        }
    }

    /// The histogram after the engine has timed a tick: the sample is recorded when the tick's
    /// timestamp is not zero and the benchmark is still short of samples.
    pub open spec fn observe(self, timestamp: u64, nanos: u64) -> HistogramView {
        if timestamp > 0 && self.samples < BENCHMARK_SAMPLES {
            self.record(nanos)
        } else {
            self
        }
    }

    /// The invariant: every counter is there, the counters add up to the number of samples,
    /// and that number is within the benchmark's.
    pub open spec fn wf(self) -> bool {
        &&& self.counts.len() == BUCKETS
        &&& total(self.counts, BUCKETS as int) == self.samples
        &&& self.samples <= BENCHMARK_SAMPLES
        &&& self.sum_ns <= self.samples * u64::MAX
    }
}

/// The figures of a finished benchmark. Latencies are in whole microseconds but for the mean,
/// which is in nanoseconds, rounded down, and is missing when there is no sample.
#[derive(Clone, Copy, Debug, PartialEq, Eq)]
pub struct LatencyReport {
    pub samples: u64,
    pub sum_ns: u128,
    pub mean_ns: Option<u64>,
    pub p50: usize,
    pub p99: usize,
    pub p999: usize,
}

/// The histogram of the engine.
pub struct LatencyHistogram {
    counts: Vec<u64>,
    sum_ns: u128,
    samples: u64,
}

impl View for LatencyHistogram {
    type V = HistogramView;

    closed spec fn view(&self) -> HistogramView {
        HistogramView {
            counts: self.counts@,
            sum_ns: self.sum_ns as nat,
            samples: self.samples as nat,
        }
    }
}

/// The counters before a given one add up to no more than all of them.
pub proof fn lemma_total_grows(counts: Seq<u64>, i: int, n: int)
    requires
        i <= n,
    ensures
        total(counts, i) <= total(counts, n),
        0 <= total(counts, i),
    decreases n - i, i,
{
    if i < n {
        lemma_total_grows(counts, i, n - 1);
    } else if i > 0 {
        lemma_total_grows(counts, i - 1, i - 1);
    }
}

/// Changing one counter changes the sums that include it by the same amount.
pub proof fn lemma_total_update(counts: Seq<u64>, at: int, value: u64, n: int)
    requires
        0 <= at < counts.len(),
        n <= counts.len(),
    ensures
        total(counts.update(at, value), n) == total(counts, n) + if at < n {
            value - counts[at]
        } else {
            0
        },
    decreases n,
{
    if n > 0 {
        lemma_total_update(counts, at, value, n - 1);
    }
}

/// A histogram has one percentile for each number of thousandths.
pub proof fn lemma_percentile_is_unique(h: HistogramView, a: int, b: int, permille: u64)
    requires
        h.is_percentile(a, permille),
        h.is_percentile(b, permille),
    ensures
        a == b,
{
}

/// A percentile for fewer thousandths is no later than one for more.
pub proof fn lemma_percentiles_ordered(h: HistogramView, low: int, lo: u64, high: int, hi: u64)
    requires
        lo <= hi,
        h.is_percentile(low, lo),
        h.is_percentile(high, hi),
    ensures
        low <= high,
{
    if high < low {
        assert(!h.reaches(high, lo));
        assert(h.samples * lo <= h.samples * hi) by (nonlinear_arith)
            requires
                lo <= hi,
                h.samples >= 0,
        ;
    }
}

impl LatencyHistogram {
    /// The invariant of the histogram.
    pub open spec fn wf(&self) -> bool {
        self@.wf()
    }

    /// A histogram without samples.
    pub fn new() -> (h: LatencyHistogram)
        ensures
            h.wf(),
            h@.samples == 0,
            h@.sum_ns == 0,
            forall|i: int| 0 <= i < BUCKETS ==> h@.counts[i] == 0,
    {
        let mut counts: Vec<u64> = Vec::with_capacity(BUCKETS);
        let mut i: usize = 0;
        while i < BUCKETS
            invariant
                i <= BUCKETS,
                counts@.len() == i,
                forall|j: int| 0 <= j < i ==> counts@[j] == 0,
                total(counts@, i as int) == 0,
            decreases BUCKETS - i,
        {
            let ghost before = counts@;
            counts.push(0);
            proof {
                lemma_total_same(before, counts@, i as int);
            }
            i += 1;
        }
        LatencyHistogram { counts, sum_ns: 0, samples: 0 }
    }

    /// The number of samples recorded.
    pub fn samples(&self) -> (n: u64)
        ensures
            n == self@.samples,
    {
        self.samples
    }

    /// The sum of the samples recorded, in nanoseconds.
    pub fn sum_ns(&self) -> (n: u128)
        ensures
            n == self@.sum_ns,
    {
        self.sum_ns
    }

    /// The counter for `us` microseconds, or `None` beyond the last counter.
    pub fn count_at(&self, us: usize) -> (n: Option<u64>)
        requires
            self.wf(),
        ensures
            n == if us < BUCKETS {
                Some(self@.counts[us as int])
            } else {
                None
            },
    {
        if us < BUCKETS {
            Some(self.counts[us])
        } else {
            None
        }
    }

    /// Takes the latency of one tick. The sample is recorded when the tick's timestamp is not
    /// zero and the benchmark is still short of samples. Returns whether the benchmark has all
    /// its samples.
    pub fn observe(&mut self, timestamp: u64, nanos: u64) -> (complete: bool)
        requires
            old(self).wf(),
        ensures
            final(self).wf(),
            final(self)@ == old(self)@.observe(timestamp, nanos),
            total(final(self)@.counts, BUCKETS as int) == final(self)@.samples,
            complete == (final(self)@.samples == BENCHMARK_SAMPLES),
    {
        if timestamp > 0 && self.samples < BENCHMARK_SAMPLES {
            let micros = nanos / 1000;
            let bucket: usize = if micros < 10_000 {
                micros as usize
            } else {
                OVERFLOW_BUCKET
            };
            proof {
                lemma_total_grows(self.counts@, bucket + 1, BUCKETS as int);
                lemma_total_grows(self.counts@, bucket as int, bucket as int);
                lemma_total_update(
                    self.counts@,
                    bucket as int,
                    (self.counts@[bucket as int] + 1) as u64,
                    BUCKETS as int,
                );
                assert((self.samples + 1) * u64::MAX == self.samples * u64::MAX + u64::MAX)
                    by (nonlinear_arith);
            }
            let count = self.counts[bucket];
            self.counts[bucket] = count + 1;
            self.sum_ns = self.sum_ns + nanos as u128;
            self.samples = self.samples + 1;
        }
        self.samples == BENCHMARK_SAMPLES
    }

    /// The percentile for `permille` thousandths: the least microsecond count such that the
    /// samples of at most that many microseconds are at least that share of all samples. Where
    /// no count reaches the share, which takes more than a thousand thousandths, the result is
    /// the overflow counter.
    pub fn percentile(&self, permille: u64) -> (us: usize)
        requires
            self.wf(),
        ensures
            self@.is_percentile(us as int, permille),
    {
        proof {
            assert(self.samples * permille <= BENCHMARK_SAMPLES * u64::MAX) by (nonlinear_arith)
                requires
                    self.samples <= BENCHMARK_SAMPLES,
                    permille <= u64::MAX,
            ;
        }
        let target: u128 = self.samples as u128 * permille as u128;
        let mut seen: u64 = 0;
        let mut us: usize = 0;
        while us < OVERFLOW_BUCKET
            invariant
                self.wf(),
                us <= OVERFLOW_BUCKET,
                seen == total(self.counts@, us as int),
                target == self@.samples * permille,
                forall|j: int| 0 <= j < us ==> !self@.reaches(j, permille),
            decreases OVERFLOW_BUCKET - us,
        {
            proof {
                lemma_total_grows(self.counts@, us + 1, BUCKETS as int);
            }
            let upto: u64 = seen + self.counts[us];
            if upto as u128 * 1000 >= target {
                return us;
            }
            seen = upto;
            us += 1;
        }
        us
    }

    /// The figures of the benchmark: the number of samples, their sum and mean, and the
    /// percentiles for 500, 990 and 999 thousandths.
    pub fn report(&self) -> (r: LatencyReport)
        requires
            self.wf(),
        ensures
            r.samples == self@.samples,
            r.sum_ns == self@.sum_ns,
            r.mean_ns == if self@.samples == 0 {
                None
            } else {
                Some((self@.sum_ns / self@.samples) as u64)
            },
            self@.is_percentile(r.p50 as int, 500),
            self@.is_percentile(r.p99 as int, 990),
            self@.is_percentile(r.p999 as int, 999),
            r.p50 <= r.p99 <= r.p999,
    {
        let p50 = self.percentile(500);
        let p99 = self.percentile(990);
        let p999 = self.percentile(999);
        proof {
            lemma_percentiles_ordered(self@, p50 as int, 500, p99 as int, 990);
            lemma_percentiles_ordered(self@, p99 as int, 990, p999 as int, 999);
        }
        let mean_ns = if self.samples == 0 {
            None
        } else {
            let mean: u128 = self.sum_ns / (self.samples as u128);
            proof {
                assert(self.sum_ns / (self.samples as u128) <= u64::MAX) by (nonlinear_arith)
                    requires
                        self.samples > 0,
                        self.sum_ns <= self.samples * u64::MAX,
                ;
            }
            Some(mean as u64)
        };
        LatencyReport { samples: self.samples, sum_ns: self.sum_ns, mean_ns, p50, p99, p999 }
    }
}

/// Two sequences that agree on their first `n` counters have the same sum of them.
pub proof fn lemma_total_same(a: Seq<u64>, b: Seq<u64>, n: int)
    requires
        n <= a.len(),
        n <= b.len(),
        forall|i: int| 0 <= i < n ==> a[i] == b[i],
    ensures
        total(a, n) == total(b, n),
    decreases n,
{
    if n > 0 {
        lemma_total_same(a, b, n - 1);
    }
}

} // verus!
