//! Timing of operations: a named stopwatch and repeated benchmarks.
use vstd::prelude::*;
use std::time::{Duration, Instant};
use crate::text::{decimal, decimal_string};

verus! {

#[verifier::external_type_specification]
#[verifier::external_body]
pub struct ExInstant(Instant);

/// `Instant::now`: the current time, of which nothing is stated.
#[verifier::external_body]
fn instant_now() -> Instant {
    Instant::now()
}

/// `Instant::elapsed`: the time since `start`, of which nothing is stated.
#[verifier::external_body]
fn instant_elapsed(start: &Instant) -> Duration {
    start.elapsed()
}

/// `Instant::elapsed` as a whole number of nanoseconds (`Duration::as_nanos`):
/// the time since `start`, of which nothing is stated.
#[verifier::external_body]
fn elapsed_nanos(start: &Instant) -> u128 {
    start.elapsed().as_nanos()
}

/// `Duration::as_secs`: the whole seconds of a duration, of which nothing is
/// stated.
#[verifier::external_body]
fn duration_secs(d: &Duration) -> u64 {
    d.as_secs()
}

/// `Duration::subsec_nanos`: the nanoseconds beyond the whole seconds, which
/// its documentation says are always less than one billion.
#[verifier::external_body]
fn duration_subsec_nanos(d: &Duration) -> (r: u32)
    ensures
        r < 1_000_000_000,
{
    d.subsec_nanos()
}

/// `Duration`'s `Debug` text of the duration of `secs` seconds and
/// `subsec_nanos` nanoseconds (such as `1.5ms`).
pub uninterp spec fn duration_debug_of(secs: u64, subsec_nanos: u32) -> Seq<char>;

/// `Duration::new` and `Duration`'s `Debug`. Claimed: the text is
/// `duration_debug_of` of the arguments.
#[verifier::external_body]
fn nanos_duration_text(secs: u64, subsec_nanos: u32) -> (r: String)
    requires
        subsec_nanos < 1_000_000_000,
    ensures
        r@ == duration_debug_of(secs, subsec_nanos),
{
    format!("{:?}", Duration::new(secs, subsec_nanos))
}

/// A named stopwatch started when it is made.
pub struct Profiler {
    pub name: String,
    pub start: Instant,
}

impl Profiler {
    pub fn new(name: &str) -> (p: Self)
        ensures
            p.name@ == name@,
    {
        Profiler { name: name.to_owned(), start: instant_now() }
    }

    /// The time since the stopwatch started.
    pub fn elapsed(&self) -> Duration {
        instant_elapsed(&self.start)
    }

    /// `[name] elapsed: ` and the `Debug` text of the time since the stopwatch
    /// started.
    pub fn report(&self) -> (r: String)
        ensures
            exists|secs: u64, nanos: u32|
                nanos < 1_000_000_000 && r@ == "["@ + self.name@ + "] elapsed: "@ + duration_debug_of(secs, nanos),
    {
        let e = self.elapsed();
        let secs = duration_secs(&e);
        let nanos = duration_subsec_nanos(&e);
        let t = nanos_duration_text(secs, nanos);
        let mut s = String::from_str("[");
        s.append(self.name.as_str());
        s.append("] elapsed: ");
        s.append(t.as_str());
        s
    }
}

/// The shortest of some run times (0 when there are none).
pub open spec fn shortest(runs: Seq<u128>) -> u128
    decreases runs.len(),
{
    if runs.len() == 0 {
        0
    } else if runs.len() == 1 {
        runs[0]
    } else if runs.last() < shortest(runs.drop_last()) {
        runs.last()
    } else {
        shortest(runs.drop_last())
    }
}

/// The longest of some run times (0 when there are none).
pub open spec fn longest(runs: Seq<u128>) -> u128
    decreases runs.len(),
{
    if runs.len() == 0 {
        0
    } else if runs.len() == 1 {
        runs[0]
    } else if runs.last() > longest(runs.drop_last()) {
        runs.last()
    } else {
        longest(runs.drop_last())
    }
}

/// The shortest run is no longer than the longest, and both are runs.
pub proof fn lemma_shortest_longest(runs: Seq<u128>)
    ensures
        shortest(runs) <= longest(runs),
        runs.len() > 0 ==> runs.contains(shortest(runs)) && runs.contains(longest(runs)),
        forall|i: int| 0 <= i < runs.len() ==> shortest(runs) <= #[trigger] runs[i] <= longest(runs),
    decreases runs.len(),
{
    if runs.len() > 1 {
        let rest = runs.drop_last();
        lemma_shortest_longest(rest);
        assert forall|i: int| 0 <= i < runs.len() implies shortest(runs) <= #[trigger] runs[i] <= longest(runs) by {
            if i < rest.len() {
                assert(rest[i] == runs[i]);
            }
        }
        if runs.last() < shortest(rest) {
            assert(runs[runs.len() - 1] == runs.last());
        } else {
            let k = choose|k: int| 0 <= k < rest.len() && rest[k] == shortest(rest);
            assert(runs[k] == rest[k]);
        }
        if runs.last() > longest(rest) {
            assert(runs[runs.len() - 1] == runs.last());
        } else {
            let k = choose|k: int| 0 <= k < rest.len() && rest[k] == longest(rest);
            assert(runs[k] == rest[k]);
        }
    } else if runs.len() == 1 {
        assert(runs[0] == runs[0]);
    }
}

/// A time in nanoseconds that a `Duration` can hold (at most `u64::MAX`
/// whole seconds).
pub open spec fn fits_duration(nanos: u128) -> bool {
    nanos / 1_000_000_000 <= u64::MAX
}

/// What a benchmark measured, in nanoseconds: the total time of all runs,
/// their average (the total over the number of runs, rounded down), and the
/// shortest and longest run.
#[derive(Debug, Clone)]
pub struct BenchmarkResult {
    pub name: String,
    pub iterations: usize,
    pub total_nanos: u128,
    pub avg_nanos: u128,
    pub min_nanos: u128,
    pub max_nanos: u128,
}

/// The `Debug` text of a duration of `nanos` nanoseconds.
pub open spec fn nanos_debug_text(nanos: u128) -> Seq<char> {
    duration_debug_of((nanos / 1_000_000_000) as u64, (nanos % 1_000_000_000) as u32)
}

/// The `Debug` text of a duration of `nanos` nanoseconds.
fn nanos_text(nanos: u128) -> (r: String)
    requires
        fits_duration(nanos),
    ensures
        r@ == nanos_debug_text(nanos),
{
    let secs = nanos / 1_000_000_000;
    let sub = nanos % 1_000_000_000;
    nanos_duration_text(secs as u64, sub as u32)
}

impl BenchmarkResult {
    /// The report of a benchmark, given its throughput (operations per second,
    /// printed without decimals): its name, the number of runs and the times
    /// (each as `Duration`'s `Debug` text).
    pub fn report(&self, throughput: &str) -> (r: String)
        requires
            fits_duration(self.total_nanos),
            fits_duration(self.avg_nanos),
            fits_duration(self.min_nanos),
            fits_duration(self.max_nanos),
        ensures
            r@ == "Benchmark: "@ + self.name@ + "\n  iterations: "@ + decimal(self.iterations as nat)
                + "\n  total: "@ + nanos_debug_text(self.total_nanos) + "\n  avg: "@ + nanos_debug_text(
                self.avg_nanos,
            ) + "\n  min: "@ + nanos_debug_text(self.min_nanos) + "\n  max: "@ + nanos_debug_text(
                self.max_nanos,
            ) + "\n  throughput: "@ + throughput@ + " ops/sec"@,
    {
        let total = nanos_text(self.total_nanos);
        let avg = nanos_text(self.avg_nanos);
        let min = nanos_text(self.min_nanos);
        let max = nanos_text(self.max_nanos);
        let mut s = String::from_str("Benchmark: ");
        s.append(self.name.as_str());
        s.append("\n  iterations: ");
        s.append(decimal_string(self.iterations as u128).as_str());
        s.append("\n  total: ");
        s.append(total.as_str());
        s.append("\n  avg: ");
        s.append(avg.as_str());
        s.append("\n  min: ");
        s.append(min.as_str());
        s.append("\n  max: ");
        s.append(max.as_str());
        s.append("\n  throughput: ");
        s.append(throughput);
        s.append(" ops/sec");
        assert(s@ == "Benchmark: "@ + self.name@ + "\n  iterations: "@ + decimal(self.iterations as nat)
            + "\n  total: "@ + total@ + "\n  avg: "@ + avg@ + "\n  min: "@ + min@ + "\n  max: "@ + max@
            + "\n  throughput: "@ + throughput@ + " ops/sec"@);
        s
    }
}

/// The result of a benchmark from what it measured: the total time and the
/// time of each run (one per iteration), all in nanoseconds. The average is
/// the total over the number of runs as a `u32` (which wraps, as `as u32`
/// does; a multiple of 2^32 would divide by zero). With no runs the average,
/// shortest and longest are 0.
pub fn benchmark_result(name: &str, iterations: usize, total_nanos: u128, runs: &Vec<u128>) -> (r: BenchmarkResult)
    requires
        runs@.len() == iterations,
        iterations == 0 || (iterations as int) % 0x1_0000_0000int != 0,
    ensures
        r.name@ == name@,
        r.iterations == iterations,
        r.total_nanos == total_nanos,
        r.min_nanos == shortest(runs@),
        r.max_nanos == longest(runs@),
        r.avg_nanos == if iterations > 0 {
            total_nanos / (((iterations as int) % 0x1_0000_0000int) as u128)
        } else {
            0
        },
        r.min_nanos <= r.max_nanos,
{
    proof {
        lemma_shortest_longest(runs@);
    }
    let mut min: u128 = 0;
    let mut max: u128 = 0;
    let mut i: usize = 0;
    while i < runs.len()
        invariant
            i <= runs.len(),
            min == shortest(runs@.take(i as int)),
            max == longest(runs@.take(i as int)),
        decreases runs.len() - i,
    {
        let ghost pre = runs@.take(i as int);
        let ghost next = runs@.take(i + 1);
        assert(next.drop_last() =~= pre);
        assert(next.last() == runs@[i as int]);
        if i == 0 {
            min = runs[0];
            max = runs[0];
        } else {
            if runs[i] < min {
                min = runs[i];
            }
            if runs[i] > max {
                max = runs[i];
            }
        }
        i = i + 1;
    }
    assert(runs@.take(runs.len() as int) =~= runs@);
    let avg: u128 = if iterations > 0 {
        let divisor: u32 = ((iterations as u64) % 0x1_0000_0000u64) as u32;
        total_nanos / (divisor as u128)
    } else {
        0
    };
    BenchmarkResult { name: name.to_owned(), iterations, total_nanos, avg_nanos: avg, min_nanos: min, max_nanos: max }
}

/// Runs `f` `iterations` times, timing each run and all of them.
pub fn benchmark<F: FnMut()>(name: &str, iterations: usize, mut f: F) -> (r: BenchmarkResult)
    requires
        iterations == 0 || (iterations as int) % 0x1_0000_0000int != 0,
        forall|s: F| call_requires(s, ()),
    ensures
        r.name@ == name@,
        r.iterations == iterations,
        r.min_nanos <= r.max_nanos,
        iterations > 0 ==> r.avg_nanos == r.total_nanos / (((iterations as int) % 0x1_0000_0000int) as u128),
        iterations == 0 ==> r.avg_nanos == 0 && r.min_nanos == 0 && r.max_nanos == 0,
        exists|runs: Seq<u128>|
            runs.len() == iterations && r.min_nanos == shortest(runs) && r.max_nanos == longest(runs),
{
    let mut runs: Vec<u128> = Vec::new();
    let total_start = instant_now();
    let mut i: usize = 0;
    while i < iterations
        invariant
            i <= iterations,
            runs@.len() == i,
            forall|s: F| call_requires(s, ()),
        decreases iterations - i,
    {
        let start = instant_now();
        f();
        runs.push(elapsed_nanos(&start));
        i = i + 1;
    }
    let total = elapsed_nanos(&total_start);
    let r = benchmark_result(name, iterations, total, &runs);
    assert(runs@.len() == 0 ==> shortest(runs@) == 0 && longest(runs@) == 0);
    r
}

} // verus!
