//! Reduction of samples to summary statistics, for one run and across runs.
//!
//! - [`Benchmark::reduce`] summarises the samples of one run.
//! - [`Benchmark::aggregate`] summarises the statistics of the runs of one
//!   command: each run counts with its averages.
//! - [`Benchmark::batch`] does both for a list of runs, leaving out the runs
//!   that have no statistic.
//! - [`Benchmark::calculate`] gives the statistic of a single run as it is,
//!   and the statistic of the batch for any other number of runs.
//!
//! All statistics are computed in the raw units of the samples (ticks,
//! kilobytes, nanoseconds). An average is the integer part of the exact
//! mean. The CPU shares are whole percent of the exact sums, so that no
//! rounding of an average enters them.

use vstd::prelude::*;
use crate::error::LensError;
use crate::process::ProcessInfo;
use crate::process::ProcessView;

verus! {

/// Sum of the samples.
pub open spec fn total(samples: Seq<u64>) -> nat
    decreases samples.len(),
{
    if samples.len() == 0 {
        0
    } else {
        total(samples.drop_last()) + samples.last() as nat
    }
}

/// Integer part of the arithmetic mean of the samples.
pub open spec fn mean(samples: Seq<u64>) -> nat
    recommends
        samples.len() > 0,
{
    total(samples) / samples.len()
}

/// The least of the samples.
pub open spec fn smallest(samples: Seq<u64>) -> u64
    recommends
        samples.len() > 0,
    decreases samples.len(),
{
    if samples.len() <= 1 {
        samples[0]
    } else if samples.last() < smallest(samples.drop_last()) {
        samples.last()
    } else {
        smallest(samples.drop_last())
    }
}

/// The greatest of the samples.
pub open spec fn largest(samples: Seq<u64>) -> u64
    recommends
        samples.len() > 0,
    decreases samples.len(),
{
    if samples.len() <= 1 {
        samples[0]
    } else if samples.last() > largest(samples.drop_last()) {
        samples.last()
    } else {
        largest(samples.drop_last())
    }
}

/// `smallest` is a sample and no sample lies below it.
pub proof fn lemma_smallest_is_minimum(samples: Seq<u64>)
    requires
        samples.len() > 0,
    ensures
        samples.contains(smallest(samples)),
        forall|i: int| 0 <= i < samples.len() ==> smallest(samples) <= #[trigger] samples[i],
    decreases samples.len(),
{
    if samples.len() > 1 {
        let front = samples.drop_last();
        lemma_smallest_is_minimum(front);
        let k = choose|k: int| 0 <= k < front.len() && front[k] == smallest(front);
        assert(samples[k] == smallest(front));
        assert forall|i: int| 0 <= i < samples.len() implies smallest(samples)
            <= #[trigger] samples[i] by {
            if i < front.len() {
                assert(front[i] == samples[i]);
            }
        }
    }
}

/// `largest` is a sample and no sample lies above it.
pub proof fn lemma_largest_is_maximum(samples: Seq<u64>)
    requires
        samples.len() > 0,
    ensures
        samples.contains(largest(samples)),
        forall|i: int| 0 <= i < samples.len() ==> #[trigger] samples[i] <= largest(samples),
    decreases samples.len(),
{
    if samples.len() > 1 {
        let front = samples.drop_last();
        lemma_largest_is_maximum(front);
        let k = choose|k: int| 0 <= k < front.len() && front[k] == largest(front);
        assert(samples[k] == largest(front));
        assert forall|i: int| 0 <= i < samples.len() implies #[trigger] samples[i] <= largest(
            samples,
        ) by {
            if i < front.len() {
                assert(front[i] == samples[i]);
            }
        }
    }
}

/// The sum lies between the count times the least sample and the count times
/// the greatest sample.
pub proof fn lemma_total_bounds(samples: Seq<u64>)
    requires
        samples.len() > 0,
    ensures
        samples.len() * smallest(samples) <= total(samples),
        total(samples) <= samples.len() * largest(samples),
    decreases samples.len(),
{
    let n = samples.len() as int;
    let lo = smallest(samples) as int;
    let hi = largest(samples) as int;
    if n > 1 {
        let front = samples.drop_last();
        lemma_total_bounds(front);
        let flo = smallest(front) as int;
        let fhi = largest(front) as int;
        assert((n - 1) * lo <= (n - 1) * flo) by (nonlinear_arith)
            requires
                lo <= flo,
                n >= 1,
        ;
        assert((n - 1) * fhi <= (n - 1) * hi) by (nonlinear_arith)
            requires
                fhi <= hi,
                n >= 1,
        ;
        assert(n * lo == (n - 1) * lo + lo) by (nonlinear_arith);
        assert(n * hi == (n - 1) * hi + hi) by (nonlinear_arith);
    } else {
        assert(total(samples.drop_last()) == 0);
    }
}

/// For every non-empty sample set the average lies between the least and the
/// greatest sample.
pub proof fn lemma_mean_between_extremes(samples: Seq<u64>)
    requires
        samples.len() > 0,
    ensures
        smallest(samples) <= mean(samples) <= largest(samples),
{
    lemma_total_bounds(samples);
    let n = samples.len() as int;
    let t = total(samples) as int;
    let lo = smallest(samples) as int;
    let hi = largest(samples) as int;
    assert(lo <= t / n <= hi) by (nonlinear_arith)
        requires
            n > 0,
            n * lo <= t,
            t <= n * hi,
    ;
}

/// Extending a sample set by one sample adds that sample to the sum.
pub proof fn lemma_total_push(samples: Seq<u64>, sample: u64)
    ensures
        total(samples.push(sample)) == total(samples) + sample,
{
    assert(samples.push(sample).drop_last() =~= samples);
}

/// Least, greatest and average sample of one metric.
#[derive(Debug, Clone, Copy, PartialEq, Eq, Structural)]
pub struct Summary {
    pub min: u64,
    pub max: u64,
    pub average: u64,
}

impl Summary {
    /// The summary of a non-empty sample set.
    pub open spec fn of(samples: Seq<u64>) -> Summary
        recommends
            samples.len() > 0,
    {
        Summary { min: smallest(samples), max: largest(samples), average: mean(samples) as u64 }
    }

    /// The summary of a sample set that holds `sample` alone.
    pub open spec fn single(sample: u64) -> Summary {
        Summary { min: sample, max: sample, average: sample }
    }

    /// The average lies between the extremes.
    pub open spec fn ordered(self) -> bool {
        self.min <= self.average <= self.max
    }

    /// All three values coincide.
    pub open spec fn flat(self) -> bool {
        self.min == self.average && self.average == self.max
    }

    /// The summary of a metric of which there is the one reading `sample`.
    pub fn of_sample(sample: u64) -> (summary: Summary)
        ensures
            summary == Summary::single(sample),
    {
        Summary { min: sample, max: sample, average: sample }
    }
}

/// The metrics that a statistic covers.
#[derive(Debug, Clone, Copy, PartialEq, Eq, Structural)]
pub enum Metric {
    /// CPU ticks spent in user mode.
    UserTime,
    /// CPU ticks spent in kernel mode.
    SystemTime,
    /// CPU ticks in total.
    TotalTime,
    /// Resident memory, in kilobytes.
    Memory,
    /// Wall-clock duration, in nanoseconds.
    Duration,
}

/// Share of `user` in `user + system`, in whole percent; 0 where both are 0.
pub open spec fn user_share(user: nat, system: nat) -> u64 {
    if user + system == 0 {
        0
    } else {
        ((100 * user) / (user + system)) as u64
    }
}

/// What `user_share` leaves of 100 percent; 0 where both are 0.
pub open spec fn system_share(user: nat, system: nat) -> u64 {
    if user + system == 0 {
        0
    } else {
        (100 - user_share(user, system)) as u64
    }
}

/// 100 percent where any CPU time was spent, else 0.
pub open spec fn total_share(user: nat, system: nat) -> u64 {
    if user + system == 0 {
        0
    } else {
        100
    }
}

/// The two shares lie in `[0, 100]`; they sum to 100 where any CPU time was
/// spent and are both 0 where none was.
pub proof fn lemma_shares_sum(user: nat, system: nat)
    ensures
        user_share(user, system) <= 100,
        system_share(user, system) <= 100,
        user + system > 0 ==> user_share(user, system) + system_share(user, system) == 100,
        user + system == 0 ==> user_share(user, system) == 0 && system_share(user, system) == 0,
{
    if user + system > 0 {
        let u = user as int;
        let t = (user + system) as int;
        assert(0 <= (100 * u) / t <= 100) by (nonlinear_arith)
            requires
                0 <= u <= t,
                t > 0,
        ;
    }
}

/// Summary statistics of one run, or of a batch of runs of one command.
///
/// CPU times are in ticks, memory is in kilobytes, durations are in
/// nanoseconds, percentages are whole percent.
#[derive(Debug, Clone, Copy, PartialEq, Eq, Structural)]
pub struct BenchmarkStat {
    /// Total CPU time.
    pub min_ttime: u64,
    pub max_ttime: u64,
    pub average_ttime: u64,
    /// Wall-clock duration.
    pub average_duration: u64,
    pub max_duration: u64,
    pub min_duration: u64,
    /// CPU time in kernel mode.
    pub min_stime: u64,
    pub max_stime: u64,
    pub average_stime: u64,
    /// CPU time in user mode.
    pub min_utime: u64,
    pub max_utime: u64,
    pub average_utime: u64,
    /// Resident memory.
    pub min_memory: u64,
    pub max_memory: u64,
    pub average_memory: u64,
    /// Share of the user time in the CPU time.
    pub utime_percentage: u64,
    /// Share of the system time in the CPU time.
    pub stime_percentage: u64,
    /// 100 where any CPU time was spent, else 0.
    pub ttime_percentage: u64,
}

impl BenchmarkStat {
    /// The statistic made of one summary per metric, with the CPU shares
    /// that belong to the sum `user` of the user times and the sum `system`
    /// of the system times.
    pub open spec fn assemble(
        utime: Summary,
        stime: Summary,
        ttime: Summary,
        memory: Summary,
        duration: Summary,
        user: nat,
        system: nat,
    ) -> BenchmarkStat {
        BenchmarkStat {
            min_ttime: ttime.min,
            max_ttime: ttime.max,
            average_ttime: ttime.average,
            average_duration: duration.average,
            max_duration: duration.max,
            min_duration: duration.min,
            min_stime: stime.min,
            max_stime: stime.max,
            average_stime: stime.average,
            min_utime: utime.min,
            max_utime: utime.max,
            average_utime: utime.average,
            min_memory: memory.min,
            max_memory: memory.max,
            average_memory: memory.average,
            utime_percentage: user_share(user, system),
            stime_percentage: system_share(user, system),
            ttime_percentage: total_share(user, system),
        }
    }

    /// The summary that the statistic holds of `metric`.
    pub open spec fn summary(self, metric: Metric) -> Summary {
        match metric {
            Metric::UserTime => Summary {
                min: self.min_utime,
                max: self.max_utime,
                average: self.average_utime,
            },
            Metric::SystemTime => Summary {
                min: self.min_stime,
                max: self.max_stime,
                average: self.average_stime,
            },
            Metric::TotalTime => Summary {
                min: self.min_ttime,
                max: self.max_ttime,
                average: self.average_ttime,
            },
            Metric::Memory => Summary {
                min: self.min_memory,
                max: self.max_memory,
                average: self.average_memory,
            },
            Metric::Duration => Summary {
                min: self.min_duration,
                max: self.max_duration,
                average: self.average_duration,
            },
        }
    }

    /// The CPU shares are those of the user time `user` and the system
    /// time `system`.
    pub open spec fn has_shares_of(self, user: nat, system: nat) -> bool {
        &&& self.utime_percentage == user_share(user, system)
        &&& self.stime_percentage == system_share(user, system)
        &&& self.ttime_percentage == total_share(user, system)
    }

    /// The user and system shares sum to 100, with a total share of 100, or
    /// all three are 0; they sum to 100 where the average user and system
    /// time are not both 0.
    pub open spec fn shares_sum(self) -> bool {
        &&& {
            ||| self.utime_percentage + self.stime_percentage == 100 && self.ttime_percentage
                == 100
            ||| self.utime_percentage == 0 && self.stime_percentage == 0 && self.ttime_percentage
                == 0
        }
        &&& self.average_utime + self.average_stime > 0 ==> self.utime_percentage
            + self.stime_percentage == 100
    }

    /// Every average lies between its extremes, and the CPU shares sum as
    /// `shares_sum` says.
    pub open spec fn wf(self) -> bool {
        &&& forall|metric: Metric| #[trigger] self.summary(metric).ordered()
        &&& self.shares_sum()
    }

    /// For every metric the least, the average and the greatest value
    /// coincide.
    pub open spec fn flat(self) -> bool {
        forall|metric: Metric| #[trigger] self.summary(metric).flat()
    }

    /// The statistic whose every field is zero.
    pub fn new() -> (stat: Self)
        ensures
            stat == BenchmarkStat::assemble(
                Summary::single(0),
                Summary::single(0),
                Summary::single(0),
                Summary::single(0),
                Summary::single(0),
                0,
                0,
            ),
            stat.wf(),
    {
        BenchmarkStat {
            min_ttime: 0,
            max_ttime: 0,
            average_ttime: 0,
            average_duration: 0,
            max_duration: 0,
            min_duration: 0,
            min_stime: 0,
            max_stime: 0,
            average_stime: 0,
            min_utime: 0,
            max_utime: 0,
            average_utime: 0,
            min_memory: 0,
            max_memory: 0,
            average_memory: 0,
            utime_percentage: 0,
            stime_percentage: 0,
            ttime_percentage: 0,
        }
    }

    /// The value that the statistic holds as the average of `metric`.
    pub fn average(&self, metric: Metric) -> (value: u64)
        ensures
            value == self.summary(metric).average,
    {
        match metric {
            Metric::UserTime => self.average_utime,
            Metric::SystemTime => self.average_stime,
            Metric::TotalTime => self.average_ttime,
            Metric::Memory => self.average_memory,
            Metric::Duration => self.average_duration,
        }
    }
}

/// The averages that the statistics hold of `metric`, in order.
pub open spec fn averages(stats: Seq<BenchmarkStat>, metric: Metric) -> Seq<u64> {
    Seq::new(stats.len(), |i: int| stats[i].summary(metric).average)
}

/// The statistic of one run: CPU times and duration are single readings,
/// memory is summarised over its samples, and the CPU shares are those of
/// the user and the system time. There is none for a run without a memory
/// sample or without a duration.
pub open spec fn run_statistic(run: ProcessView) -> Option<BenchmarkStat> {
    if run.stat.memory_kb.len() == 0 || run.duration is None {
        None
    } else {
        Some(
            BenchmarkStat::assemble(
                Summary::single(run.stat.utime),
                Summary::single(run.stat.stime),
                Summary::single(run.stat.total_time),
                Summary::of(run.stat.memory_kb),
                Summary::single(run.duration->0),
                run.stat.utime as nat,
                run.stat.stime as nat,
            ),
        )
    }
}

/// The statistic of a batch: for every metric, each run's average is one
/// sample, and the CPU shares are those of the sum of the user times and
/// the sum of the system times. There is none for an empty batch.
pub open spec fn aggregate_statistic(stats: Seq<BenchmarkStat>) -> Option<BenchmarkStat> {
    if stats.len() == 0 {
        None
    } else {
        Some(
            BenchmarkStat::assemble(
                Summary::of(averages(stats, Metric::UserTime)),
                Summary::of(averages(stats, Metric::SystemTime)),
                Summary::of(averages(stats, Metric::TotalTime)),
                Summary::of(averages(stats, Metric::Memory)),
                Summary::of(averages(stats, Metric::Duration)),
                total(averages(stats, Metric::UserTime)),
                total(averages(stats, Metric::SystemTime)),
            ),
        )
    }
}

/// The statistics of those runs that have one, in the order of the runs.
pub open spec fn usable_statistics(runs: Seq<ProcessView>) -> Seq<BenchmarkStat>
    decreases runs.len(),
{
    if runs.len() == 0 {
        Seq::empty()
    } else {
        let front = usable_statistics(runs.drop_last());
        match run_statistic(runs.last()) {
            Some(stat) => front.push(stat),
            None => front,
        }
    }
}

/// The statistic of a list of runs: of a single run its own statistic, of
/// any other number of runs the statistic of the batch of those that have
/// one.
pub open spec fn calculated_statistic(runs: Seq<ProcessView>) -> Option<BenchmarkStat> {
    if runs.len() == 1 {
        run_statistic(runs[0])
    } else {
        aggregate_statistic(usable_statistics(runs))
    }
}

/// The models of the runs, in order.
pub open spec fn views(runs: Seq<ProcessInfo>) -> Seq<ProcessView> {
    Seq::new(runs.len(), |i: int| runs[i]@)
}

/// The summary of a non-empty sample set is ordered, and its average is
/// above 0 only where the sum is.
pub proof fn lemma_summary_ordered(samples: Seq<u64>)
    requires
        samples.len() > 0,
    ensures
        Summary::of(samples).ordered(),
        mean(samples) <= u64::MAX,
        Summary::of(samples).average > 0 ==> total(samples) > 0,
{
    lemma_mean_between_extremes(samples);
    let n = samples.len() as int;
    let t = total(samples) as int;
    assert(t / n > 0 ==> t > 0) by (nonlinear_arith)
        requires
            n > 0,
            t >= 0,
    ;
}

/// A statistic assembled from ordered summaries is well formed, where the
/// sums are above 0 wherever the averages are.
pub proof fn lemma_assemble_wf(
    utime: Summary,
    stime: Summary,
    ttime: Summary,
    memory: Summary,
    duration: Summary,
    user: nat,
    system: nat,
)
    requires
        utime.ordered(),
        stime.ordered(),
        ttime.ordered(),
        memory.ordered(),
        duration.ordered(),
        utime.average > 0 ==> user > 0,
        stime.average > 0 ==> system > 0,
    ensures
        BenchmarkStat::assemble(utime, stime, ttime, memory, duration, user, system).wf(),
{
    let stat = BenchmarkStat::assemble(utime, stime, ttime, memory, duration, user, system);
    lemma_shares_sum(user, system);
    assert forall|metric: Metric| #[trigger] stat.summary(metric).ordered() by {
        match metric {
            Metric::UserTime => {},
            Metric::SystemTime => {},
            Metric::TotalTime => {},
            Metric::Memory => {},
            Metric::Duration => {},
        }
    }
}

/// Every run statistic is well formed: averages lie between their extremes,
/// and the user and system shares sum to 100 where any CPU time was spent
/// and are both 0 where none was.
pub proof fn lemma_run_statistic_wf(run: ProcessView)
    ensures
        run_statistic(run) matches Some(stat) ==> {
            &&& stat.wf()
            &&& stat.has_shares_of(stat.average_utime as nat, stat.average_stime as nat)
            &&& run.stat.utime + run.stat.stime > 0 ==> stat.utime_percentage
                + stat.stime_percentage == 100
            &&& run.stat.utime + run.stat.stime == 0 ==> stat.utime_percentage == 0
                && stat.stime_percentage == 0
        },
{
    if run_statistic(run) is Some {
        lemma_summary_ordered(run.stat.memory_kb);
        lemma_assemble_wf(
            Summary::single(run.stat.utime),
            Summary::single(run.stat.stime),
            Summary::single(run.stat.total_time),
            Summary::of(run.stat.memory_kb),
            Summary::single(run.duration->0),
            run.stat.utime as nat,
            run.stat.stime as nat,
        );
        lemma_shares_sum(run.stat.utime as nat, run.stat.stime as nat);
    }
}

/// Every batch statistic is well formed: averages lie between their
/// extremes, and the user and system shares sum to 100 where the runs spent
/// any CPU time on average and are both 0 where they spent none.
pub proof fn lemma_aggregate_statistic_wf(stats: Seq<BenchmarkStat>)
    ensures
        aggregate_statistic(stats) matches Some(stat) ==> {
            let user = total(averages(stats, Metric::UserTime));
            let system = total(averages(stats, Metric::SystemTime));
            &&& stat.wf()
            &&& user + system > 0 ==> stat.utime_percentage + stat.stime_percentage == 100
            &&& user + system == 0 ==> stat.utime_percentage == 0 && stat.stime_percentage == 0
        },
{
    if aggregate_statistic(stats) is Some {
        let user = total(averages(stats, Metric::UserTime));
        let system = total(averages(stats, Metric::SystemTime));
        lemma_summary_ordered(averages(stats, Metric::UserTime));
        lemma_summary_ordered(averages(stats, Metric::SystemTime));
        lemma_summary_ordered(averages(stats, Metric::TotalTime));
        lemma_summary_ordered(averages(stats, Metric::Memory));
        lemma_summary_ordered(averages(stats, Metric::Duration));
        lemma_assemble_wf(
            Summary::of(averages(stats, Metric::UserTime)),
            Summary::of(averages(stats, Metric::SystemTime)),
            Summary::of(averages(stats, Metric::TotalTime)),
            Summary::of(averages(stats, Metric::Memory)),
            Summary::of(averages(stats, Metric::Duration)),
            user,
            system,
        );
        lemma_shares_sum(user, system);
    }
}

/// The summary of a sample set that holds one sample is that sample thrice,
/// and its sum is that sample.
pub proof fn lemma_summary_of_one(sample: u64)
    ensures
        Summary::of(seq![sample]) == Summary::single(sample),
        total(seq![sample]) == sample,
{
    let samples = seq![sample];
    assert(total(samples.drop_last()) == 0);
}

/// The statistic of a batch of one run holds, for every metric, that run's
/// average as least, average and greatest value, and the CPU shares of that
/// run's average user and system time.
pub proof fn lemma_aggregate_of_one(stat: BenchmarkStat)
    ensures
        aggregate_statistic(seq![stat]) is Some,
        forall|metric: Metric| #[trigger]
            aggregate_statistic(seq![stat])->0.summary(metric) == Summary::single(
                stat.summary(metric).average,
            ),
        aggregate_statistic(seq![stat])->0.has_shares_of(
            stat.average_utime as nat,
            stat.average_stime as nat,
        ),
{
    let stats = seq![stat];
    let batch = aggregate_statistic(stats)->0;
    assert forall|metric: Metric| #[trigger]
        batch.summary(metric) == Summary::single(stat.summary(metric).average) by {
        let value = stat.summary(metric).average;
        assert(averages(stats, metric) =~= seq![value]);
        lemma_summary_of_one(value);
    }
    assert(averages(stats, Metric::UserTime) =~= seq![stat.average_utime]);
    assert(averages(stats, Metric::SystemTime) =~= seq![stat.average_stime]);
    lemma_summary_of_one(stat.average_utime);
    lemma_summary_of_one(stat.average_stime);
}

/// The statistic of a batch of one run is that run's statistic, for every
/// statistic whose least, average and greatest value coincide in every
/// metric and whose CPU shares are those of its average user and system
/// time.
///
/// A statistic in which minimum, average and maximum differ is not its own
/// batch statistic: the batch counts the run with its average alone
/// (`lemma_aggregate_of_one`).
pub proof fn lemma_aggregate_of_one_is_identity(stat: BenchmarkStat)
    requires
        stat.flat(),
        stat.has_shares_of(stat.average_utime as nat, stat.average_stime as nat),
    ensures
        aggregate_statistic(seq![stat]) == Some(stat),
{
    lemma_aggregate_of_one(stat);
    let batch = aggregate_statistic(seq![stat])->0;
    assert forall|metric: Metric| #[trigger] batch.summary(metric) == stat.summary(metric) by {
        assert(stat.summary(metric).flat());
    }
    assert(batch.summary(Metric::UserTime) == stat.summary(Metric::UserTime));
    assert(batch.summary(Metric::SystemTime) == stat.summary(Metric::SystemTime));
    assert(batch.summary(Metric::TotalTime) == stat.summary(Metric::TotalTime));
    assert(batch.summary(Metric::Memory) == stat.summary(Metric::Memory));
    assert(batch.summary(Metric::Duration) == stat.summary(Metric::Duration));
}

/// The batch of a single run whose memory samples are all the same has the
/// statistic of that run.
pub proof fn lemma_aggregate_of_one_run(run: ProcessView)
    requires
        run_statistic(run) is Some,
        smallest(run.stat.memory_kb) == largest(run.stat.memory_kb),
    ensures
        aggregate_statistic(seq![run_statistic(run)->0]) == run_statistic(run),
{
    let stat = run_statistic(run)->0;
    lemma_run_statistic_wf(run);
    lemma_mean_between_extremes(run.stat.memory_kb);
    assert forall|metric: Metric| #[trigger] stat.summary(metric).flat() by {
        match metric {
            Metric::UserTime => {},
            Metric::SystemTime => {},
            Metric::TotalTime => {},
            Metric::Memory => {},
            Metric::Duration => {},
        }
    }
    lemma_aggregate_of_one_is_identity(stat);
}

/// Namespace of the reductions.
pub struct Benchmark;

impl Benchmark {
    /// Sum of `nums`.
    pub fn sum(nums: &Vec<u64>) -> (sum: u128)
        ensures
            sum == total(nums@),
    {
        let n = nums.len();
        let mut sum: u128 = 0;
        let mut i: usize = 0;
        while i < n
            invariant
                n == nums@.len(),
                i <= n,
                sum == total(nums@.take(i as int)),
                sum <= i * u64::MAX,
            decreases n - i,
        {
            proof {
                lemma_total_push(nums@.take(i as int), nums@[i as int]);
                assert(nums@.take(i as int + 1) =~= nums@.take(i as int).push(nums@[i as int]));
                assert(i * u64::MAX <= usize::MAX * u64::MAX) by (nonlinear_arith)
                    requires
                        i <= usize::MAX,
                ;
                assert((i + 1) * u64::MAX == i * u64::MAX + u64::MAX) by (nonlinear_arith);
            }
            sum = sum + nums[i] as u128;
            i = i + 1;
        }
        assert(nums@.take(n as int) =~= nums@);
        sum
    }

    /// Least, greatest and average sample of `nums`.
    pub fn summarize(nums: Vec<u64>) -> (r: Result<Summary, LensError>)
        ensures
            nums@.len() == 0 ==> r == Err::<Summary, LensError>(LensError::EmptySampleSet),
            nums@.len() > 0 ==> r == Ok::<Summary, LensError>(Summary::of(nums@)),
            r matches Ok(summary) ==> summary.ordered(),
    {
        if nums.len() == 0 {
            return Err(LensError::EmptySampleSet);
        }
        let for_average = nums.clone();
        let for_max = nums.clone();
        let average = match Self::average(for_average) {
            Ok(value) => value,
            Err(e) => {
                return Err(e);
            },
        };
        let max = match Self::max(for_max) {
            Ok(value) => value,
            Err(e) => {
                return Err(e);
            },
        };
        let min = match Self::min(nums) {
            Ok(value) => value,
            Err(e) => {
                return Err(e);
            },
        };
        Ok(Summary { min, max, average })
    }

    /// The user, system and total CPU shares that belong to a user time and
    /// a system time, in whole percent.
    ///
    /// The user share is found by long division: `user` is added a hundred
    /// times to a remainder that is kept below `user + system`, and every
    /// time the remainder would reach `user + system` the share grows by
    /// one. The remainder is held as its distance from `system`, so that no
    /// number beyond 128 bits arises.
    pub fn shares(user: u128, system: u128) -> (r: (u64, u64, u64))
        ensures
            r.0 == user_share(user as nat, system as nat),
            r.1 == system_share(user as nat, system as nat),
            r.2 == total_share(user as nat, system as nat),
            r.0 <= 100 && r.1 <= 100,
            user + system > 0 ==> r.0 + r.1 == 100,
            user + system == 0 ==> r.0 == 0 && r.1 == 0,
    {
        proof {
            lemma_shares_sum(user as nat, system as nat);
        }
        if user == 0 && system == 0 {
            return (0, 0, 0);
        }
        let ghost whole = user + system;
        let mut percent: u64 = 0;
        let mut rest: u128 = 0;
        let mut above: bool = system == 0;
        let mut added: u64 = 0;
        assert(percent * whole == 0 && added * user == 0) by (nonlinear_arith)
            requires
                percent == 0,
                added == 0,
        ;
        while added < 100
            invariant
                whole == user + system,
                whole > 0,
                added <= 100,
                percent <= added,
                above ==> rest < user,
                !above ==> rest < system,
                percent * whole + (if above {
                    system + rest
                } else {
                    rest as int
                }) == added * user,
            decreases 100 - added,
        {
            proof {
                assert((percent + 1) * whole == percent * whole + whole) by (nonlinear_arith);
                assert((added + 1) * user == added * user + user) by (nonlinear_arith);
            }
            if above {
                percent = percent + 1;
                if rest >= system {
                    rest = rest - system;
                } else {
                    above = false;
                }
            } else if user >= system - rest {
                rest = user - (system - rest);
                above = true;
            } else {
                rest = rest + user;
            }
            added = added + 1;
        }
        proof {
            let remainder = if above {
                system + rest
            } else {
                rest as int
            };
            assert(100 * user == percent * whole + remainder);
            vstd::arithmetic::div_mod::lemma_fundamental_div_mod_converse(
                100 * user,
                whole,
                percent as int,
                remainder,
            );
        }
        (percent, 100 - percent, 100)
    }

    /// Puts five summaries and the CPU shares of the sums `user` and
    /// `system` into one statistic.
    fn assemble(
        utime: Summary,
        stime: Summary,
        ttime: Summary,
        memory: Summary,
        duration: Summary,
        user: u128,
        system: u128,
    ) -> (stat: BenchmarkStat)
        ensures
            stat == BenchmarkStat::assemble(
                utime,
                stime,
                ttime,
                memory,
                duration,
                user as nat,
                system as nat,
            ),
    {
        let (utime_percentage, stime_percentage, ttime_percentage) = Self::shares(user, system);
        BenchmarkStat {
            min_ttime: ttime.min,
            max_ttime: ttime.max,
            average_ttime: ttime.average,
            average_duration: duration.average,
            max_duration: duration.max,
            min_duration: duration.min,
            min_stime: stime.min,
            max_stime: stime.max,
            average_stime: stime.average,
            min_utime: utime.min,
            max_utime: utime.max,
            average_utime: utime.average,
            min_memory: memory.min,
            max_memory: memory.max,
            average_memory: memory.average,
            utime_percentage,
            stime_percentage,
            ttime_percentage,
        }
    }

    /// Reduces the samples of one run to its statistic.
    ///
    /// Fails with `EmptySampleSet` exactly when the run holds no memory
    /// sample or no duration.
    pub fn reduce(run: &ProcessInfo) -> (r: Result<BenchmarkStat, LensError>)
        ensures
            r == match run_statistic(run@) {
                Some(stat) => Ok::<BenchmarkStat, LensError>(stat),
                None => Err::<BenchmarkStat, LensError>(LensError::EmptySampleSet),
            },
            r matches Ok(stat) ==> stat.wf(),
    {
        proof {
            lemma_run_statistic_wf(run@);
        }
        let duration = match run.duration {
            Some(d) => d,
            None => {
                return Err(LensError::EmptySampleSet);
            },
        };
        let samples = run.stat.memory_kb.clone();
        let memory = match Self::summarize(samples) {
            Ok(summary) => summary,
            Err(e) => {
                return Err(e);
            },
        };
        Ok(
            Self::assemble(
                Summary::of_sample(run.stat.utime),
                Summary::of_sample(run.stat.stime),
                Summary::of_sample(run.stat.total_time),
                memory,
                Summary::of_sample(duration),
                run.stat.utime as u128,
                run.stat.stime as u128,
            ),
        )
    }

    /// The averages that `stats` hold of `metric`, in order.
    pub fn column(stats: &Vec<BenchmarkStat>, metric: Metric) -> (values: Vec<u64>)
        ensures
            values@ == averages(stats@, metric),
    {
        let mut values: Vec<u64> = Vec::new();
        let mut i: usize = 0;
        while i < stats.len()
            invariant
                i <= stats@.len(),
                values@ == averages(stats@.take(i as int), metric),
            decreases stats@.len() - i,
        {
            values.push(stats[i].average(metric));
            i = i + 1;
        }
        values
    }

    /// Reduces the statistics of the runs of one command to the statistic of
    /// the batch: for every metric, each run's average counts as one sample.
    ///
    /// Fails with `EmptySampleSet` exactly when `stats` is empty.
    pub fn aggregate(stats: &Vec<BenchmarkStat>) -> (r: Result<BenchmarkStat, LensError>)
        ensures
            r == match aggregate_statistic(stats@) {
                Some(stat) => Ok::<BenchmarkStat, LensError>(stat),
                None => Err::<BenchmarkStat, LensError>(LensError::EmptySampleSet),
            },
            r matches Ok(stat) ==> stat.wf(),
    {
        proof {
            lemma_aggregate_statistic_wf(stats@);
        }
        let utimes = Self::column(stats, Metric::UserTime);
        let stimes = Self::column(stats, Metric::SystemTime);
        let user = Self::sum(&utimes);
        let system = Self::sum(&stimes);
        let utime = match Self::summarize(utimes) {
            Ok(summary) => summary,
            Err(e) => {
                return Err(e);
            },
        };
        let stime = match Self::summarize(stimes) {
            Ok(summary) => summary,
            Err(e) => {
                return Err(e);
            },
        };
        let ttime = match Self::summarize(Self::column(stats, Metric::TotalTime)) {
            Ok(summary) => summary,
            Err(e) => {
                return Err(e);
            },
        };
        let memory = match Self::summarize(Self::column(stats, Metric::Memory)) {
            Ok(summary) => summary,
            Err(e) => {
                return Err(e);
            },
        };
        let duration = match Self::summarize(Self::column(stats, Metric::Duration)) {
            Ok(summary) => summary,
            Err(e) => {
                return Err(e);
            },
        };
        Ok(Self::assemble(utime, stime, ttime, memory, duration, user, system))
    }

    /// The statistic of a list of runs of one command: of a single run its
    /// own statistic, of any other number of runs the statistic of the
    /// batch, in which each run counts with its averages and runs that have
    /// no statistic are left out.
    ///
    /// Fails with `EmptySampleSet` exactly when there is no such statistic:
    /// the single run has none, or none of the runs has one.
    pub fn calculate(processes: Vec<ProcessInfo>) -> (r: Result<BenchmarkStat, LensError>)
        ensures
            r == match calculated_statistic(views(processes@)) {
                Some(stat) => Ok::<BenchmarkStat, LensError>(stat),
                None => Err::<BenchmarkStat, LensError>(LensError::EmptySampleSet),
            },
            r matches Ok(stat) ==> stat.wf(),
    {
        if processes.len() == 1 {
            Self::reduce(&processes[0])
        } else {
            Self::batch(processes)
        }
    }

    /// The statistic of a batch of runs of one command.
    ///
    /// Each run is reduced to its statistic; runs that have none are left
    /// out; the rest is aggregated. Fails with `EmptySampleSet` exactly when
    /// no run has a statistic.
    pub fn batch(processes: Vec<ProcessInfo>) -> (r: Result<BenchmarkStat, LensError>)
        ensures
            r == match aggregate_statistic(usable_statistics(views(processes@))) {
                Some(stat) => Ok::<BenchmarkStat, LensError>(stat),
                None => Err::<BenchmarkStat, LensError>(LensError::EmptySampleSet),
            },
            r matches Ok(stat) ==> stat.wf(),
    {
        let ghost runs = views(processes@);
        let mut stats: Vec<BenchmarkStat> = Vec::new();
        let mut i: usize = 0;
        while i < processes.len()
            invariant
                i <= processes@.len(),
                runs == views(processes@),
                stats@ == usable_statistics(runs.take(i as int)),
            decreases processes@.len() - i,
        {
            proof {
                assert(runs.take(i as int + 1).drop_last() =~= runs.take(i as int));
            }
            match Self::reduce(&processes[i]) {
                Ok(stat) => {
                    stats.push(stat);
                },
                Err(_) => {},
            }
            i = i + 1;
        }
        assert(runs.take(i as int) =~= runs);
        Self::aggregate(&stats)
    }

    /// Integer part of the mean of `nums`.
    pub fn average(nums: Vec<u64>) -> (r: Result<u64, LensError>)
        ensures
            nums@.len() == 0 ==> r == Err::<u64, LensError>(LensError::EmptySampleSet),
            nums@.len() > 0 ==> r == Ok::<u64, LensError>(mean(nums@) as u64),
            nums@.len() > 0 ==> smallest(nums@) <= mean(nums@) <= largest(nums@),
    {
        let n = nums.len();
        if n == 0 {
            return Err(LensError::EmptySampleSet);
        }
        proof {
            lemma_mean_between_extremes(nums@);
        }
        let sum = Self::sum(&nums);
        let avg = sum / (n as u128);
        Ok(avg as u64)
    }

    /// The greatest of `nums`.
    pub fn max(nums: Vec<u64>) -> (r: Result<u64, LensError>)
        ensures
            nums@.len() == 0 ==> r == Err::<u64, LensError>(LensError::EmptySampleSet),
            nums@.len() > 0 ==> r == Ok::<u64, LensError>(largest(nums@)),
            r matches Ok(m) ==> nums@.contains(m) && forall|i: int|
                0 <= i < nums@.len() ==> #[trigger] nums@[i] <= m,
    {
        let n = nums.len();
        if n == 0 {
            return Err(LensError::EmptySampleSet);
        }
        let mut best = nums[0];
        let mut i: usize = 1;
        while i < n
            invariant
                n == nums@.len(),
                1 <= i <= n,
                best == largest(nums@.take(i as int)),
            decreases n - i,
        {
            proof {
                assert(nums@.take(i as int + 1).drop_last() =~= nums@.take(i as int));
            }
            if nums[i] > best {
                best = nums[i];
            }
            i = i + 1;
        }
        proof {
            assert(nums@.take(n as int) =~= nums@);
            lemma_largest_is_maximum(nums@);
        }
        Ok(best)
    }

    /// The least of `nums`.
    pub fn min(nums: Vec<u64>) -> (r: Result<u64, LensError>)
        ensures
            nums@.len() == 0 ==> r == Err::<u64, LensError>(LensError::EmptySampleSet),
            nums@.len() > 0 ==> r == Ok::<u64, LensError>(smallest(nums@)),
            r matches Ok(m) ==> nums@.contains(m) && forall|i: int|
                0 <= i < nums@.len() ==> m <= #[trigger] nums@[i],
    {
        let n = nums.len();
        if n == 0 {
            return Err(LensError::EmptySampleSet);
        }
        let mut best = nums[0];
        let mut i: usize = 1;
        while i < n
            invariant
                n == nums@.len(),
                1 <= i <= n,
                best == smallest(nums@.take(i as int)),
            decreases n - i,
        {
            proof {
                assert(nums@.take(i as int + 1).drop_last() =~= nums@.take(i as int));
            }
            if nums[i] < best {
                best = nums[i];
            }
            i = i + 1;
        }
        proof {
            assert(nums@.take(n as int) =~= nums@);
            lemma_smallest_is_minimum(nums@);
        }
        Ok(best)
    }
}

} // verus!
