//! The stages of one package's attempt, from resolution to the outcome.
//!
//! The caller performs each piece of work that `pending` names through the
//! build system and reports how it went; the machine decides what comes next
//! and, at the end, the outcome to record.

use vstd::prelude::*;
use crate::outcome::Outcome;

verus! {

/// The work that an attempt waits for.
#[derive(Clone, Debug)]
pub enum Work {
    /// Resolve the newest matching version and download it.
    Resolve,
    /// Compile the package's library target.
    Compile,
    /// Run the package's tests.
    Test,
    /// Run the package's benchmarks.
    Bench,
    /// Nothing is left: record this outcome.
    Record { outcome: Outcome },
}

/// How a piece of work went. Times are in milliseconds.
#[derive(Clone, Debug)]
pub enum StageReport {
    Resolved,
    NotFound,
    DownloadFailed { cause: String },
    Built { ms: u64 },
    BuildFailed { message: String },
    Tested { ms: u64 },
    TestFailed { message: String },
    Benched { ms: u64 },
    BenchFailed { message: String },
}

/// One package's attempt: the stages that the run configuration enables,
/// the times taken so far, and the work it waits for.
#[derive(Debug)]
pub struct Attempt {
    pub run_tests: bool,
    pub run_benchmarks: bool,
    pub build_ms: u64,
    pub test_ms: Option<u64>,
    pub pending: Work,
}

/// What follows a finished stage, once tests have been dealt with.
pub open spec fn after_tests(a: Attempt, build_ms: u64, test_ms: Option<u64>) -> Work {
    if a.run_benchmarks {
        Work::Bench
    } else {
        Work::Record { outcome: Outcome::Success { build_ms, test_ms, bench_ms: None } }
    }
}

/// The attempt after a report. A report that does not answer the pending
/// work leaves the attempt as it is. A failed benchmark does not spoil a
/// success: only its time is missing.
pub open spec fn attempt_next(a: Attempt, r: StageReport) -> Attempt {
    match (a.pending, r) {
        (Work::Resolve, StageReport::Resolved) => Attempt { pending: Work::Compile, ..a },
        (Work::Resolve, StageReport::NotFound) => Attempt {
            pending: Work::Record { outcome: Outcome::NotFound },
            ..a
        },
        (Work::Resolve, StageReport::DownloadFailed { cause }) => Attempt {
            pending: Work::Record { outcome: Outcome::DownloadFailed { cause } },
            ..a
        },
        (Work::Compile, StageReport::Built { ms }) => Attempt {
            build_ms: ms,
            test_ms: None,
            pending: if a.run_tests {
                Work::Test
            } else {
                after_tests(a, ms, None)
            },
            ..a
        },
        (Work::Compile, StageReport::BuildFailed { message }) => Attempt {
            pending: Work::Record { outcome: Outcome::BuildFailed { message } },
            ..a
        },
        (Work::Test, StageReport::Tested { ms }) => Attempt {
            test_ms: Some(ms),
            pending: after_tests(a, a.build_ms, Some(ms)),
            ..a
        },
        (Work::Test, StageReport::TestFailed { message }) => Attempt {
            pending: Work::Record { outcome: Outcome::TestFailed { message } },
            ..a
        },
        (Work::Bench, StageReport::Benched { ms }) => Attempt {
            pending: Work::Record {
                outcome: Outcome::Success {
                    build_ms: a.build_ms,
                    test_ms: a.test_ms,
                    bench_ms: Some(ms),
                },
            },
            ..a
        },
        (Work::Bench, StageReport::BenchFailed { .. }) => Attempt {
            pending: Work::Record {
                outcome: Outcome::Success { build_ms: a.build_ms, test_ms: a.test_ms, bench_ms: None },
            },
            ..a
        },
        _ => a,
    }
}

impl Attempt {
    /// An attempt that starts by resolving the package.
    pub fn new(run_tests: bool, run_benchmarks: bool) -> (r: Attempt)
        ensures
            r.run_tests == run_tests,
            r.run_benchmarks == run_benchmarks,
            r.build_ms == 0,
            r.test_ms is None,
            r.pending is Resolve,
    {
        Attempt { run_tests, run_benchmarks, build_ms: 0, test_ms: None, pending: Work::Resolve }
    }

    /// The work that the attempt waits for.
    pub fn pending(&self) -> (r: &Work)
        ensures
            *r == self.pending,
    {
        &self.pending
    }

    /// Takes the report of the pending work and moves to what follows.
    pub fn advance(&mut self, r: StageReport)
        ensures
            *final(self) == attempt_next(*old(self), r),
    {
        let mut pending = Work::Resolve;
        core::mem::swap(&mut pending, &mut self.pending);
        let ghost a = Attempt { pending, ..*old(self) };
        assert(a == *old(self));
        self.pending = match (pending, r) {
            (Work::Resolve, StageReport::Resolved) => Work::Compile,
            (Work::Resolve, StageReport::NotFound) => Work::Record { outcome: Outcome::NotFound },
            (Work::Resolve, StageReport::DownloadFailed { cause }) => Work::Record {
                outcome: Outcome::DownloadFailed { cause },
            },
            (Work::Compile, StageReport::Built { ms }) => {
                self.build_ms = ms;
                self.test_ms = None;
                if self.run_tests {
                    Work::Test
                } else if self.run_benchmarks {
                    Work::Bench
                } else {
                    Work::Record {
                        outcome: Outcome::Success { build_ms: ms, test_ms: None, bench_ms: None },
                    }
                }
            },
            (Work::Compile, StageReport::BuildFailed { message }) => Work::Record {
                outcome: Outcome::BuildFailed { message },
            },
            (Work::Test, StageReport::Tested { ms }) => {
                self.test_ms = Some(ms);
                if self.run_benchmarks {
                    Work::Bench
                } else {
                    Work::Record {
                        outcome: Outcome::Success {
                            build_ms: self.build_ms,
                            test_ms: Some(ms),
                            bench_ms: None,
                        },
                    }
                }
            },
            (Work::Test, StageReport::TestFailed { message }) => Work::Record {
                outcome: Outcome::TestFailed { message },
            },
            (Work::Bench, StageReport::Benched { ms }) => Work::Record {
                outcome: Outcome::Success {
                    build_ms: self.build_ms,
                    test_ms: self.test_ms,
                    bench_ms: Some(ms),
                },
            },
            (Work::Bench, StageReport::BenchFailed { .. }) => Work::Record {
                outcome: Outcome::Success {
                    build_ms: self.build_ms,
                    test_ms: self.test_ms,
                    bench_ms: None,
                },
            },
            (p, _) => p,
        };
    }
}

} // verus!
