//! Metric samples and the ordered series of one run.

use vstd::prelude::*;

verus! {

/// Largest value a utilisation percentage can take.
pub const MAX_PERCENT: u64 = 100;

/// Milliseconds in one second.
pub const MILLIS_PER_SECOND: u64 = 1000;

/// One reading of host utilisation, taken at a tick.
#[derive(Clone, Copy, Debug, PartialEq, Eq, Structural)]
pub struct Sample {
    /// Whole seconds since the sampler started, rounded to nearest.
    pub elapsed_seconds: u64,
    /// Average CPU utilisation over all logical CPUs, in percent.
    pub cpu_percent: u64,
    /// Used memory over total memory, in percent.
    pub mem_percent: u64,
}

/// The smaller of a reading and `MAX_PERCENT`.
pub open spec fn clamp_percent_spec(value: int) -> int {
    if value > MAX_PERCENT as int {
        MAX_PERCENT as int
    } else {
        value
    }
}

/// A time in milliseconds as whole seconds, halves rounded up.
pub open spec fn round_seconds_spec(millis: int) -> int {
    (millis + 500) / (MILLIS_PER_SECOND as int)
}

/// Caps a percentage at `MAX_PERCENT`.
pub fn clamp_percent(value: u64) -> (result: u64)
    ensures
        result as int == clamp_percent_spec(value as int),
        result <= MAX_PERCENT,
{
    if value > MAX_PERCENT {
        MAX_PERCENT
    } else {
        value
    }
}

/// Rounds a time in milliseconds to the nearest whole second.
pub fn round_seconds(millis: u64) -> (seconds: u64)
    ensures
        seconds as int == round_seconds_spec(millis as int),
{
    let whole: u64 = millis / MILLIS_PER_SECOND;
    let rest: u64 = millis % MILLIS_PER_SECOND;
    if rest >= 500 {
        whole + 1
    } else {
        whole
    }
}

/// Rounding to seconds keeps the order of two times.
pub proof fn lemma_round_seconds_monotonic(earlier: int, later: int)
    requires
        earlier <= later,
    ensures
        round_seconds_spec(earlier) <= round_seconds_spec(later),
{
}

impl Sample {
    /// Both percentages lie in `0..=100`.
    pub open spec fn wf(&self) -> bool {
        self.cpu_percent <= MAX_PERCENT && self.mem_percent <= MAX_PERCENT
    }

    /// The sample for a tick at `elapsed_ms` with the given raw readings.
    pub open spec fn at(elapsed_ms: u64, cpu: u64, mem: u64) -> Sample {
        Sample {
            elapsed_seconds: round_seconds_spec(elapsed_ms as int) as u64,
            cpu_percent: clamp_percent_spec(cpu as int) as u64,
            mem_percent: clamp_percent_spec(mem as int) as u64,
        }
    }

    /// Builds the sample of a tick: the time is rounded to seconds and each
    /// reading is capped at one hundred percent.
    pub fn new(elapsed_ms: u64, cpu: u64, mem: u64) -> (sample: Sample)
        ensures
            sample == Sample::at(elapsed_ms, cpu, mem),
            sample.wf(),
    {
        Sample {
            elapsed_seconds: round_seconds(elapsed_ms),
            cpu_percent: clamp_percent(cpu),
            mem_percent: clamp_percent(mem),
        }
    }

    /// Whether both percentages lie in `0..=100`.
    pub fn is_valid(&self) -> (valid: bool)
        ensures
            valid == self.wf(),
    {
        self.cpu_percent <= MAX_PERCENT && self.mem_percent <= MAX_PERCENT
    }
}

/// Every sample of the sequence has percentages in range.
pub open spec fn all_valid(samples: Seq<Sample>) -> bool {
    forall|i: int| 0 <= i < samples.len() ==> (#[trigger] samples[i]).wf()
}

/// Elapsed time never decreases along the sequence.
pub open spec fn ordered(samples: Seq<Sample>) -> bool {
    forall|i: int, j: int|
        0 <= i <= j < samples.len() ==> (#[trigger] samples[i]).elapsed_seconds
            <= (#[trigger] samples[j]).elapsed_seconds
}

/// The largest elapsed time of a sequence of samples, zero when it is empty.
pub open spec fn max_elapsed_spec(samples: Seq<Sample>) -> int
    decreases samples.len(),
{
    if samples.len() == 0 {
        0
    } else {
        let rest = max_elapsed_spec(samples.drop_last());
        let last = samples.last().elapsed_seconds as int;
        if last >= rest {
            last
        } else {
            rest
        }
    }
}

/// The maximum bounds every elapsed time from above and, on a sequence that
/// is not empty, is the elapsed time of one of its samples.
pub proof fn lemma_max_elapsed_is_maximum(samples: Seq<Sample>)
    ensures
        forall|i: int|
            0 <= i < samples.len() ==> (#[trigger] samples[i]).elapsed_seconds as int
                <= max_elapsed_spec(samples),
        samples.len() > 0 ==> exists|i: int|
            0 <= i < samples.len() && (#[trigger] samples[i]).elapsed_seconds as int
                == max_elapsed_spec(samples),
        samples.len() == 0 ==> max_elapsed_spec(samples) == 0,
    decreases samples.len(),
{
    if samples.len() > 0 {
        let front = samples.drop_last();
        lemma_max_elapsed_is_maximum(front);
        assert forall|i: int| 0 <= i < samples.len() implies (#[trigger] samples[i]).elapsed_seconds as int
            <= max_elapsed_spec(samples) by {
            if i < front.len() {
                assert(front[i] == samples[i]);
            }
        }
        let last = samples.last().elapsed_seconds as int;
        if front.len() == 0 || last >= max_elapsed_spec(front) {
            assert(samples[samples.len() - 1].elapsed_seconds as int == max_elapsed_spec(samples));
        } else {
            let k = choose|k: int|
                0 <= k < front.len() && (#[trigger] front[k]).elapsed_seconds as int
                    == max_elapsed_spec(front);
            assert(samples[k] == front[k]);
        }
    }
}

/// On an ordered sequence the largest elapsed time is that of the last
/// sample.
pub proof fn lemma_max_elapsed_of_ordered(samples: Seq<Sample>)
    requires
        ordered(samples),
        samples.len() > 0,
    ensures
        max_elapsed_spec(samples) == samples.last().elapsed_seconds as int,
{
    lemma_max_elapsed_is_maximum(samples);
    let k = choose|k: int|
        0 <= k < samples.len() && (#[trigger] samples[k]).elapsed_seconds as int
            == max_elapsed_spec(samples);
    assert(samples[k].elapsed_seconds <= samples[samples.len() - 1].elapsed_seconds);
}

/// The samples of one run, in the order in which they were taken.
#[derive(Debug)]
pub struct Series {
    samples: Vec<Sample>,
}

impl View for Series {
    type V = Seq<Sample>;

    closed spec fn view(&self) -> Seq<Sample> {
        self.samples@
    }
}

impl Series {
    /// Every sample is in range and elapsed time never decreases.
    pub open spec fn wf(&self) -> bool {
        all_valid(self@) && ordered(self@)
    }

    /// Whether `sample` may follow the samples already held.
    pub open spec fn accepts(&self, sample: Sample) -> bool {
        sample.wf() && (self@.len() == 0 || self@.last().elapsed_seconds
            <= sample.elapsed_seconds)
    }

    /// An empty series.
    pub fn new() -> (series: Series)
        ensures
            series@ == Seq::<Sample>::empty(),
            series.wf(),
    {
        Series { samples: Vec::new() }
    }

    /// Number of samples held.
    pub fn len(&self) -> (n: usize)
        ensures
            n == self@.len(),
    {
        self.samples.len()
    }

    /// Whether no sample is held.
    pub fn is_empty(&self) -> (empty: bool)
        ensures
            empty == (self@.len() == 0),
    {
        self.samples.len() == 0
    }

    /// The sample at `index`, counted from the oldest.
    pub fn get(&self, index: usize) -> (sample: Option<Sample>)
        ensures
            index < self@.len() ==> sample == Some(self@[index as int]),
            index >= self@.len() ==> sample.is_none(),
    {
        if index < self.samples.len() {
            Some(self.samples[index])
        } else {
            None
        }
    }

    /// The most recent sample.
    pub fn last(&self) -> (sample: Option<Sample>)
        ensures
            self@.len() > 0 ==> sample == Some(self@.last()),
            self@.len() == 0 ==> sample.is_none(),
    {
        let n: usize = self.samples.len();
        if n > 0 {
            Some(self.samples[n - 1])
        } else {
            None
        }
    }

    /// Builds a series from samples already taken, if every one of them is
    /// in range and none is older than the one before it.
    pub fn from_vec(samples: Vec<Sample>) -> (series: Option<Series>)
        ensures
            series.is_some() == (all_valid(samples@) && ordered(samples@)),
            series matches Some(s) ==> s@ == samples@ && s.wf(),
    {
        let n: usize = samples.len();
        let mut i: usize = 0;
        while i < n
            invariant
                n == samples@.len(),
                i <= n,
                all_valid(samples@.subrange(0, i as int)),
                ordered(samples@.subrange(0, i as int)),
            decreases n - i,
        {
            let current: Sample = samples[i];
            let ghost prefix = samples@.subrange(0, i as int);
            let ghost longer = samples@.subrange(0, i as int + 1);
            if !current.is_valid() {
                assert(!samples@[i as int].wf());
                return None;
            }
            if i > 0 && samples[i - 1].elapsed_seconds > current.elapsed_seconds {
                return None;
            }
            proof {
                assert forall|k: int| 0 <= k < longer.len() implies (#[trigger] longer[k]).wf() by {
                    if k < i {
                        assert(longer[k] == prefix[k]);
                    }
                }
                assert forall|a: int, b: int| 0 <= a <= b < longer.len() implies (#[trigger] longer[a]).elapsed_seconds
                    <= (#[trigger] longer[b]).elapsed_seconds by {
                    if b < i {
                        assert(longer[a] == prefix[a]);
                        assert(longer[b] == prefix[b]);
                    } else if a < i {
                        assert(longer[a] == prefix[a]);
                        assert(prefix[i - 1] == samples@[i - 1]);
                        assert(prefix[a].elapsed_seconds <= prefix[i - 1].elapsed_seconds);
                    }
                }
            }
            i += 1;
        }
        assert(samples@.subrange(0, n as int) =~= samples@);
        Some(Series { samples })
    }

    /// Appends `sample` when it is in range and not older than the last
    /// sample; otherwise leaves the series as it was. Returns whether the
    /// sample was appended.
    pub fn push(&mut self, sample: Sample) -> (accepted: bool)
        requires
            old(self).wf(),
        ensures
            final(self).wf(),
            accepted == old(self).accepts(sample),
            accepted ==> final(self)@ == old(self)@.push(sample),
            !accepted ==> final(self)@ == old(self)@,
    {
        if !sample.is_valid() {
            return false;
        }
        let n: usize = self.samples.len();
        if n > 0 && self.samples[n - 1].elapsed_seconds > sample.elapsed_seconds {
            return false;
        }
        self.samples.push(sample);
        true
    }

    /// The largest elapsed time in the series, zero when it is empty: the
    /// upper end of a chart's time axis.
    pub fn max_elapsed(&self) -> (bound: u64)
        ensures
            bound as int == max_elapsed_spec(self@),
    {
        let mut bound: u64 = 0;
        let mut i: usize = 0;
        while i < self.samples.len()
            invariant
                i <= self.samples.len(),
                bound as int == max_elapsed_spec(self.samples@.subrange(0, i as int)),
            decreases self.samples.len() - i,
        {
            proof {
                let longer = self.samples@.subrange(0, i as int + 1);
                assert(longer.drop_last() =~= self.samples@.subrange(0, i as int));
                assert(longer.last() == self.samples@[i as int]);
            }
            let elapsed: u64 = self.samples[i].elapsed_seconds;
            if elapsed >= bound {
                bound = elapsed;
            }
            i += 1;
        }
        assert(self.samples@.subrange(0, self.samples@.len() as int) =~= self.samples@);
        bound
    }

    /// The points `(elapsed_seconds, cpu_percent)` of the series, in order.
    pub fn cpu_points(&self) -> (points: Vec<(u64, u64)>)
        ensures
            points@.len() == self@.len(),
            forall|i: int|
                0 <= i < self@.len() ==> #[trigger] points@[i] == (
                    self@[i].elapsed_seconds,
                    self@[i].cpu_percent,
                ),
    {
        let mut points: Vec<(u64, u64)> = Vec::new();
        let mut i: usize = 0;
        while i < self.samples.len()
            invariant
                i <= self.samples.len(),
                points@.len() == i,
                forall|k: int|
                    0 <= k < i ==> #[trigger] points@[k] == (
                        self.samples@[k].elapsed_seconds,
                        self.samples@[k].cpu_percent,
                    ),
            decreases self.samples.len() - i,
        {
            let s: Sample = self.samples[i];
            points.push((s.elapsed_seconds, s.cpu_percent));
            i += 1;
        }
        points
    }

    /// The points `(elapsed_seconds, mem_percent)` of the series, in order.
    pub fn mem_points(&self) -> (points: Vec<(u64, u64)>)
        ensures
            points@.len() == self@.len(),
            forall|i: int|
                0 <= i < self@.len() ==> #[trigger] points@[i] == (
                    self@[i].elapsed_seconds,
                    self@[i].mem_percent,
                ),
    {
        let mut points: Vec<(u64, u64)> = Vec::new();
        let mut i: usize = 0;
        while i < self.samples.len()
            invariant
                i <= self.samples.len(),
                points@.len() == i,
                forall|k: int|
                    0 <= k < i ==> #[trigger] points@[k] == (
                        self.samples@[k].elapsed_seconds,
                        self.samples@[k].mem_percent,
                    ),
            decreases self.samples.len() - i,
        {
            let s: Sample = self.samples[i];
            points.push((s.elapsed_seconds, s.mem_percent));
            i += 1;
        }
        points
    }

    /// A copy of the samples, oldest first.
    pub fn to_vec(&self) -> (samples: Vec<Sample>)
        ensures
            samples@ == self@,
    {
        let mut out: Vec<Sample> = Vec::new();
        let mut i: usize = 0;
        while i < self.samples.len()
            invariant
                i <= self.samples.len(),
                out@ == self.samples@.subrange(0, i as int),
            decreases self.samples.len() - i,
        {
            out.push(self.samples[i]);
            i += 1;
        }
        assert(self.samples@.subrange(0, self.samples@.len() as int) == self.samples@);
        out
    }
}

} // verus!
