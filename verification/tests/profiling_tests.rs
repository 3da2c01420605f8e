use std::time::Duration;
use vhs_86::profiling::{benchmark, benchmark_result, BenchmarkResult, Profiler};

fn ms(n: u64) -> u128 {
    Duration::from_millis(n).as_nanos()
}

#[test]
fn test_profiler_creation() {
    let profiler = Profiler::new("test");
    assert_eq!(profiler.name, "test");
}

#[test]
fn test_profiler_elapsed() {
    let profiler = Profiler::new("test");
    let start = std::time::Instant::now();
    while start.elapsed() < Duration::from_millis(10) {}
    let elapsed = profiler.elapsed();
    assert!(elapsed >= Duration::from_millis(10));
}

#[test]
fn test_profiler_report() {
    let profiler = Profiler::new("test");
    let report = profiler.report();
    assert!(report.contains("test"));
    assert!(report.contains("elapsed"));
}

#[test]
fn test_benchmark_execution() {
    let result = benchmark("noop", 10, || {});
    assert_eq!(result.iterations, 10);
    assert_eq!(result.name, "noop");
}

#[test]
fn benchmark_runs_the_closure_each_time_and_orders_extremes() {
    let mut calls = 0usize;
    let result: BenchmarkResult = benchmark("count", 7, || {
        calls += 1;
    });
    assert_eq!(calls, 7);
    assert!(result.min_nanos <= result.max_nanos);
    assert!(result.max_nanos <= result.total_nanos);
    let empty = benchmark("none", 0, || {});
    assert_eq!(empty.min_nanos, 0);
    assert_eq!(empty.avg_nanos, 0);
}

#[test]
fn profiler_report_starts_with_the_name() {
    let p = Profiler::new("load");
    assert!(p.report().starts_with("[load] elapsed: "));
}

#[test]
fn test_benchmark_result_report() {
    let result = BenchmarkResult {
        name: "test".to_string(),
        iterations: 10,
        total_nanos: ms(100),
        avg_nanos: ms(10),
        min_nanos: ms(5),
        max_nanos: ms(20),
    };
    let throughput = result.iterations as f64 / Duration::from_nanos(result.total_nanos as u64).as_secs_f64();
    let report = result.report(&format!("{:.0}", throughput));
    assert!(report.contains("test"));
    assert!(report.contains("iterations: 10"));
    assert!(report.contains("throughput"));
}

#[test]
fn benchmark_report_lists_every_time() {
    let result = BenchmarkResult {
        name: "copy".to_string(),
        iterations: 4,
        total_nanos: ms(8),
        avg_nanos: ms(2),
        min_nanos: ms(1),
        max_nanos: ms(3),
    };
    assert_eq!(
        result.report("500"),
        "Benchmark: copy\n  iterations: 4\n  total: 8ms\n  avg: 2ms\n  min: 1ms\n  max: 3ms\n  throughput: 500 ops/sec"
    );
}

#[test]
fn benchmark_results_take_the_extremes_and_the_average() {
    let r = benchmark_result("b", 3, 10, &vec![4, 1, 3]);
    assert_eq!(r.min_nanos, 1);
    assert_eq!(r.max_nanos, 4);
    assert_eq!(r.avg_nanos, 3);
    assert_eq!(r.total_nanos, 10);
    let none = benchmark_result("z", 0, 7, &vec![]);
    assert_eq!((none.min_nanos, none.max_nanos, none.avg_nanos, none.total_nanos), (0, 0, 0, 7));
}
