use lens::benchmark::Benchmark;
use lens::benchmark::BenchmarkStat;
use lens::benchmark::Metric;
use lens::benchmark::Summary;
use lens::error::LensError;
use lens::process::ProcessInfo;

const NANOS_PER_SEC: u64 = 1_000_000_000;

fn create_test_process(
    utime: u64,
    stime: u64,
    memory: Vec<u64>,
    duration_secs: u64,
) -> ProcessInfo {
    let mut process = ProcessInfo::new();
    process.stat.utime = utime;
    process.stat.stime = stime;
    process.stat.memory_kb = memory;
    process.stat.total_time = utime + stime;
    process.duration = Some(duration_secs * NANOS_PER_SEC);
    process.start_time = Some(1_000);
    process.end_time = Some(1_000 + duration_secs * NANOS_PER_SEC);
    process
}

fn seconds(nanos: u64) -> f64 {
    nanos as f64 / NANOS_PER_SEC as f64
}

#[test]
fn test_calculate_single_process() {
    let process = create_test_process(100, 50, vec![1000, 2000, 3000], 5);
    let processes = vec![process];

    let stats = Benchmark::calculate(processes).unwrap();

    assert_eq!(stats.average_utime as f64, 100.0);
    assert_eq!(stats.average_stime as f64, 50.0);
    assert_eq!(stats.average_memory as f64, 2000.0);
    assert_eq!(stats.min_memory as f64, 1000.0);
    assert_eq!(stats.max_memory as f64, 3000.0);
    assert_eq!(seconds(stats.average_duration), 5.0);
}

#[test]
fn test_calculate_multiple_processes() {
    let process1 = create_test_process(100, 50, vec![1000], 5);
    let process2 = create_test_process(200, 100, vec![2000], 10);
    let processes = vec![process1, process2];

    let stats = Benchmark::calculate(processes).unwrap();

    assert_eq!(stats.average_utime as f64, 150.0);
    assert_eq!(stats.average_stime as f64, 75.0);
    assert_eq!(stats.min_utime as f64, 100.0);
    assert_eq!(stats.max_utime as f64, 200.0);
    assert_eq!(seconds(stats.average_duration), 7.5);
}

#[test]
fn test_cpu_percentages() {
    let process = create_test_process(75, 25, vec![1000], 5);
    let processes = vec![process];

    let stats = Benchmark::calculate(processes).unwrap();

    assert_eq!(stats.utime_percentage as f64, 75.0);
    assert_eq!(stats.stime_percentage as f64, 25.0);
    assert_eq!(stats.ttime_percentage as f64, 100.0);
}

#[test]
fn test_helper_functions() {
    let nums = vec![1, 2, 3, 4, 5];
    assert_eq!(Benchmark::average(nums.clone()).unwrap() as f64, 3.0);
    assert_eq!(Benchmark::max(nums.clone()).unwrap() as f64, 5.0);
    assert_eq!(Benchmark::min(nums).unwrap() as f64, 1.0);
}

#[test]
fn helpers_reject_an_empty_sample_set() {
    assert_eq!(Benchmark::average(vec![]), Err(LensError::EmptySampleSet));
    assert_eq!(Benchmark::max(vec![]), Err(LensError::EmptySampleSet));
    assert_eq!(Benchmark::min(vec![]), Err(LensError::EmptySampleSet));
    assert_eq!(Benchmark::summarize(vec![]), Err(LensError::EmptySampleSet));
}

#[test]
fn average_is_the_integer_part_of_the_mean() {
    assert_eq!(Benchmark::average(vec![1, 2]), Ok(1));
    assert_eq!(Benchmark::average(vec![2, 2, 3]), Ok(2));
    assert_eq!(Benchmark::average(vec![7]), Ok(7));
    assert_eq!(Benchmark::average(vec![0, 0, 0]), Ok(0));
}

#[test]
fn average_of_the_largest_samples_does_not_overflow() {
    assert_eq!(Benchmark::average(vec![u64::MAX, u64::MAX, u64::MAX]), Ok(u64::MAX));
    assert_eq!(Benchmark::average(vec![u64::MAX, 0]), Ok(u64::MAX / 2));
}

#[test]
fn average_lies_between_the_extremes() {
    let sets: Vec<Vec<u64>> = vec![
        vec![5],
        vec![1, 2],
        vec![9, 1, 4, 4, 7],
        vec![u64::MAX, 0, 17],
        vec![3, 3, 3],
    ];
    for set in sets {
        let summary = Benchmark::summarize(set.clone()).unwrap();
        assert_eq!(summary.min, *set.iter().min().unwrap());
        assert_eq!(summary.max, *set.iter().max().unwrap());
        assert!(summary.min <= summary.average);
        assert!(summary.average <= summary.max);
    }
}

#[test]
fn summary_of_samples() {
    assert_eq!(
        Benchmark::summarize(vec![30, 10, 20, 45]),
        Ok(Summary { min: 10, max: 45, average: 26 })
    );
    assert_eq!(Summary::of_sample(9), Summary { min: 9, max: 9, average: 9 });
}

#[test]
fn shares_sum_to_one_hundred() {
    assert_eq!(Benchmark::shares(75, 25), (75, 25, 100));
    assert_eq!(Benchmark::shares(1, 2), (33, 67, 100));
    assert_eq!(Benchmark::shares(2, 1), (66, 34, 100));
    assert_eq!(Benchmark::shares(0, 9), (0, 100, 100));
    assert_eq!(Benchmark::shares(9, 0), (100, 0, 100));
    assert_eq!(Benchmark::shares(u64::MAX as u128, u64::MAX as u128), (50, 50, 100));
    assert_eq!(Benchmark::shares(u64::MAX as u128, 1), (99, 1, 100));
    assert_eq!(Benchmark::shares(1, 199), (0, 100, 100));
    assert_eq!(Benchmark::shares(1, 99), (1, 99, 100));
    assert_eq!(Benchmark::shares(3, 2), (60, 40, 100));
    assert_eq!(Benchmark::shares(199, 1), (99, 1, 100));
}

#[test]
fn shares_of_the_largest_sums_do_not_overflow() {
    assert_eq!(Benchmark::shares(u128::MAX, u128::MAX), (50, 50, 100));
    assert_eq!(Benchmark::shares(u128::MAX, 0), (100, 0, 100));
    assert_eq!(Benchmark::shares(0, u128::MAX), (0, 100, 100));
    assert_eq!(Benchmark::shares(u128::MAX, 1), (99, 1, 100));
    assert_eq!(Benchmark::shares(1, u128::MAX), (0, 100, 100));
    assert_eq!(Benchmark::shares(u128::MAX, u128::MAX / 3), (75, 25, 100));
    assert_eq!(Benchmark::shares(u128::MAX / 3, u128::MAX), (25, 75, 100));
    assert_eq!(Benchmark::shares(u128::MAX / 2, u128::MAX), (33, 67, 100));
}

#[test]
fn shares_agree_with_plain_division() {
    for user in 0u128..60 {
        for system in 0u128..60 {
            let expected = if user + system == 0 {
                (0, 0, 0)
            } else {
                let share = (100 * user / (user + system)) as u64;
                (share, 100 - share, 100)
            };
            assert_eq!(Benchmark::shares(user, system), expected, "{} {}", user, system);
        }
    }
}

#[test]
fn shares_of_a_batch_come_from_the_sums() {
    let ticks = |user: u64, system: u64| {
        Benchmark::reduce(&create_test_process(user, system, vec![1], 1)).unwrap()
    };
    let halves = Benchmark::aggregate(&vec![ticks(0, 0), ticks(1, 0)]).unwrap();
    assert_eq!((halves.average_utime, halves.average_stime), (0, 0));
    assert_eq!(
        (halves.utime_percentage, halves.stime_percentage, halves.ttime_percentage),
        (100, 0, 100)
    );
    let thirds = Benchmark::aggregate(&vec![ticks(1, 1), ticks(1, 1), ticks(1, 0)]).unwrap();
    assert_eq!((thirds.average_utime, thirds.average_stime), (1, 0));
    assert_eq!(
        (thirds.utime_percentage, thirds.stime_percentage, thirds.ttime_percentage),
        (60, 40, 100)
    );
    let idle = Benchmark::aggregate(&vec![ticks(0, 0), ticks(0, 0)]).unwrap();
    assert_eq!((idle.utime_percentage, idle.stime_percentage, idle.ttime_percentage), (0, 0, 0));
}

#[test]
fn shares_are_zero_without_cpu_time() {
    assert_eq!(Benchmark::shares(0, 0), (0, 0, 0));
    let stats = Benchmark::calculate(vec![create_test_process(0, 0, vec![10], 1)]).unwrap();
    assert_eq!(stats.utime_percentage, 0);
    assert_eq!(stats.stime_percentage, 0);
    assert_eq!(stats.ttime_percentage, 0);
}

#[test]
fn reduce_summarises_one_run() {
    let run = create_test_process(30, 10, vec![400, 100, 700], 2);
    let stat = Benchmark::reduce(&run).unwrap();
    assert_eq!(
        stat,
        BenchmarkStat {
            min_ttime: 40,
            max_ttime: 40,
            average_ttime: 40,
            average_duration: 2 * NANOS_PER_SEC,
            max_duration: 2 * NANOS_PER_SEC,
            min_duration: 2 * NANOS_PER_SEC,
            min_stime: 10,
            max_stime: 10,
            average_stime: 10,
            min_utime: 30,
            max_utime: 30,
            average_utime: 30,
            min_memory: 100,
            max_memory: 700,
            average_memory: 400,
            utime_percentage: 75,
            stime_percentage: 25,
            ttime_percentage: 100,
        }
    );
}

#[test]
fn reduce_fails_without_memory_samples() {
    let run = create_test_process(30, 10, vec![], 2);
    assert_eq!(Benchmark::reduce(&run), Err(LensError::EmptySampleSet));
}

#[test]
fn reduce_fails_without_duration() {
    let mut run = create_test_process(30, 10, vec![5], 2);
    run.duration = None;
    assert_eq!(Benchmark::reduce(&run), Err(LensError::EmptySampleSet));
    assert_eq!(Benchmark::reduce(&ProcessInfo::new()), Err(LensError::EmptySampleSet));
}

#[test]
fn aggregate_fails_on_no_statistics() {
    assert_eq!(Benchmark::aggregate(&vec![]), Err(LensError::EmptySampleSet));
    assert_eq!(Benchmark::batch(vec![]), Err(LensError::EmptySampleSet));
    assert_eq!(Benchmark::calculate(vec![]), Err(LensError::EmptySampleSet));
}

#[test]
fn calculate_of_one_run_is_its_statistic() {
    let run = create_test_process(30, 10, vec![400, 100, 700], 2);
    assert_eq!(Benchmark::calculate(vec![run.clone()]), Benchmark::reduce(&run));
    let empty = create_test_process(30, 10, vec![], 2);
    assert_eq!(Benchmark::calculate(vec![empty.clone()]), Benchmark::reduce(&empty));
    assert_eq!(Benchmark::calculate(vec![empty]), Err(LensError::EmptySampleSet));
}

#[test]
fn calculate_of_several_runs_counts_each_run_with_its_averages() {
    let mut a = create_test_process(1, 1, vec![1000, 3000], 1);
    let mut b = create_test_process(1, 1, vec![5000], 1);
    a.stat.total_time = 2;
    b.stat.total_time = 2;
    let stats = Benchmark::calculate(vec![a.clone(), b.clone()]).unwrap();
    assert_eq!(stats.min_memory as f64, 2000.0);
    assert_eq!(stats.average_memory as f64, 3500.0);
    assert_eq!(stats.max_memory as f64, 5000.0);
    assert_eq!(Benchmark::calculate(vec![a.clone(), b.clone()]), Benchmark::batch(vec![a, b]));
}

#[test]
fn calculate_leaves_out_runs_without_a_statistic() {
    let usable = create_test_process(10, 30, vec![100, 300], 1);
    let other = create_test_process(20, 60, vec![600], 4);
    let mut no_duration = create_test_process(60, 0, vec![5], 9);
    no_duration.duration = None;
    let no_memory = create_test_process(1, 1, vec![], 1);
    let stats = Benchmark::calculate(vec![
        no_memory.clone(),
        usable,
        no_duration.clone(),
        other,
    ])
    .unwrap();
    assert_eq!((stats.min_utime, stats.average_utime, stats.max_utime), (10, 15, 20));
    assert_eq!((stats.min_memory, stats.average_memory, stats.max_memory), (200, 400, 600));
    assert_eq!(
        (stats.min_duration, stats.average_duration, stats.max_duration),
        (NANOS_PER_SEC, 5 * NANOS_PER_SEC / 2, 4 * NANOS_PER_SEC)
    );
    assert_eq!((stats.utime_percentage, stats.stime_percentage), (25, 75));
    assert_eq!(
        Benchmark::calculate(vec![no_duration.clone(), no_memory.clone()]),
        Err(LensError::EmptySampleSet)
    );
    assert_eq!(Benchmark::calculate(vec![no_duration]), Err(LensError::EmptySampleSet));
    assert_eq!(Benchmark::calculate(vec![no_memory]), Err(LensError::EmptySampleSet));
}

#[test]
fn sum_of_samples() {
    assert_eq!(Benchmark::sum(&vec![]), 0);
    assert_eq!(Benchmark::sum(&vec![1, 2, 3]), 6);
    assert_eq!(Benchmark::sum(&vec![u64::MAX, u64::MAX]), 2 * (u64::MAX as u128));
}

#[test]
fn aggregate_takes_each_average_as_one_sample() {
    let a = Benchmark::reduce(&create_test_process(10, 30, vec![100, 300], 1)).unwrap();
    let b = Benchmark::reduce(&create_test_process(20, 60, vec![600], 4)).unwrap();
    let c = Benchmark::reduce(&create_test_process(60, 0, vec![50, 50, 50], 4)).unwrap();
    let all = Benchmark::aggregate(&vec![a, b, c]).unwrap();
    assert_eq!((all.min_utime, all.average_utime, all.max_utime), (10, 30, 60));
    assert_eq!((all.min_stime, all.average_stime, all.max_stime), (0, 30, 60));
    assert_eq!((all.min_ttime, all.average_ttime, all.max_ttime), (40, 60, 80));
    assert_eq!((all.min_memory, all.average_memory, all.max_memory), (50, 283, 600));
    assert_eq!(
        (all.min_duration, all.average_duration, all.max_duration),
        (NANOS_PER_SEC, 3 * NANOS_PER_SEC, 4 * NANOS_PER_SEC)
    );
    assert_eq!((all.utime_percentage, all.stime_percentage, all.ttime_percentage), (50, 50, 100));
}

#[test]
fn aggregate_of_one_flat_statistic_is_that_statistic() {
    let run = Benchmark::reduce(&create_test_process(7, 5, vec![64, 64], 3)).unwrap();
    assert_eq!(Benchmark::aggregate(&vec![run]), Ok(run));
}

#[test]
fn aggregate_of_one_statistic_keeps_its_averages() {
    let run = Benchmark::reduce(&create_test_process(7, 5, vec![10, 20, 60], 3)).unwrap();
    let all = Benchmark::aggregate(&vec![run]).unwrap();
    assert_eq!(all.average_memory, run.average_memory);
    assert_eq!(all.average_utime, run.average_utime);
    assert_eq!(all.average_stime, run.average_stime);
    assert_eq!(all.average_ttime, run.average_ttime);
    assert_eq!(all.average_duration, run.average_duration);
    assert_eq!(all.utime_percentage, run.utime_percentage);
    assert_eq!(all.stime_percentage, run.stime_percentage);
    assert_eq!((all.min_memory, all.max_memory), (30, 30));
    assert_eq!((run.min_memory, run.max_memory), (10, 60));
}

#[test]
fn batch_leaves_out_runs_without_a_statistic() {
    let usable = create_test_process(10, 10, vec![100], 2);
    let no_memory = create_test_process(90, 90, vec![], 8);
    let mut no_duration = create_test_process(50, 50, vec![900], 8);
    no_duration.duration = None;
    let stats = Benchmark::batch(vec![no_memory.clone(), usable, no_duration.clone()]).unwrap();
    assert_eq!((stats.min_utime, stats.average_utime, stats.max_utime), (10, 10, 10));
    assert_eq!(stats.average_memory, 100);
    assert_eq!(stats.average_duration, 2 * NANOS_PER_SEC);
    assert_eq!(Benchmark::batch(vec![no_memory, no_duration]), Err(LensError::EmptySampleSet));
}

#[test]
fn batch_aggregates_the_statistics_of_the_runs() {
    let a = create_test_process(10, 30, vec![100, 300], 1);
    let b = create_test_process(20, 60, vec![600], 4);
    let each = vec![Benchmark::reduce(&a).unwrap(), Benchmark::reduce(&b).unwrap()];
    assert_eq!(Benchmark::batch(vec![a, b]), Benchmark::aggregate(&each));
}

#[test]
fn instant_command_run_three_times() {
    let mut runs = Vec::new();
    for nanos in [900_000u64, 1_200_000, 1_000_000] {
        let mut run = ProcessInfo::new();
        run.stat.memory_kb = vec![0];
        run.start_time = Some(5);
        run.end_time = Some(5 + nanos);
        run.duration = Some(nanos);
        runs.push(run);
    }
    let stats = Benchmark::batch(runs).unwrap();
    assert_eq!(stats.utime_percentage, 0);
    assert_eq!(stats.stime_percentage, 0);
    assert!(stats.min_duration <= stats.average_duration);
    assert!(stats.average_duration <= stats.max_duration);
    assert_eq!(stats.min_duration, 900_000);
    assert_eq!(stats.average_duration, 1_033_333);
    assert_eq!(stats.max_duration, 1_200_000);
    assert!(seconds(stats.max_duration) < 0.01);
}

#[test]
fn new_statistic_is_all_zero() {
    let stat = BenchmarkStat::new();
    assert_eq!(stat.average(Metric::UserTime), 0);
    assert_eq!(stat.average(Metric::SystemTime), 0);
    assert_eq!(stat.average(Metric::TotalTime), 0);
    assert_eq!(stat.average(Metric::Memory), 0);
    assert_eq!(stat.average(Metric::Duration), 0);
    assert_eq!((stat.min_memory, stat.max_memory), (0, 0));
    assert_eq!((stat.utime_percentage, stat.stime_percentage, stat.ttime_percentage), (0, 0, 0));
}

#[test]
fn column_lists_the_averages_in_order() {
    let a = Benchmark::reduce(&create_test_process(1, 2, vec![3], 4)).unwrap();
    let b = Benchmark::reduce(&create_test_process(5, 6, vec![7, 9], 8)).unwrap();
    let stats = vec![a, b];
    assert_eq!(Benchmark::column(&stats, Metric::UserTime), vec![1, 5]);
    assert_eq!(Benchmark::column(&stats, Metric::SystemTime), vec![2, 6]);
    assert_eq!(Benchmark::column(&stats, Metric::TotalTime), vec![3, 11]);
    assert_eq!(Benchmark::column(&stats, Metric::Memory), vec![3, 8]);
    assert_eq!(
        Benchmark::column(&stats, Metric::Duration),
        vec![4 * NANOS_PER_SEC, 8 * NANOS_PER_SEC]
    );
}
