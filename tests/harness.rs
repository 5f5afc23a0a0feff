use std::collections::HashSet;

use cargo_apply::assemble::{
    is_excluded, is_wildcard_request, names_from_index, parse_specs, IndexEntry,
};
use cargo_apply::attempt::{Attempt, StageReport, Work};
use cargo_apply::driver::{crash_outcome, Action, Driver, Event};
use cargo_apply::layout::{is_recursive_invocation, same_text, RunConfig};
use cargo_apply::outcome::{decimal_text, Outcome};
use cargo_apply::package::{is_space_char, KrateName};

fn strings(v: &[&str]) -> Vec<String> {
    v.iter().map(|s| s.to_string()).collect()
}

fn krate(name: &str) -> KrateName {
    KrateName { name: name.to_string(), version: None }
}

fn config(force: bool) -> RunConfig {
    RunConfig {
        out_dir: "work".to_string(),
        run_tests: false,
        run_benchmarks: false,
        release: false,
        force,
    }
}

#[test]
fn parse_name_only() {
    let k = KrateName::parse("serde").unwrap();
    assert_eq!(k.name, "serde");
    assert_eq!(k.version, None);
}

#[test]
fn parse_name_and_version() {
    let k = KrateName::parse("serde=1.0.0").unwrap();
    assert_eq!(k.name, "serde");
    assert_eq!(k.version, Some("1.0.0".to_string()));
}

#[test]
fn parse_rejects_missing_name_and_empty() {
    let e = KrateName::parse("=1.0.0").unwrap_err();
    assert_eq!(e.text, "=1.0.0");
    assert!(KrateName::parse("").is_err());
}

#[test]
fn parse_trims_surrounding_space() {
    let k = KrateName::parse(" \tserde=1.0 \n").unwrap();
    assert_eq!(k.name, "serde");
    assert_eq!(k.version, Some("1.0".to_string()));
    let k = KrateName::parse("\u{3000}rand ").unwrap();
    assert_eq!(k.name, "rand");
    assert_eq!(k.version, None);
}

#[test]
fn parse_rejects_malformed() {
    for s in ["serde=", "a b", "a=b=c", "a =1", "a= 1", "   ", "=", "a==b"] {
        assert!(KrateName::parse(s).is_err(), "{:?}", s);
    }
}

#[test]
fn parse_specs_continues_after_a_bad_one() {
    let (good, bad) = parse_specs(&strings(&["serde", "=1.0.0", "", "serde=1.0.0", "rand"]));
    let texts: Vec<String> = good.iter().map(|k| k.text()).collect();
    assert_eq!(texts, vec!["serde", "serde=1.0.0", "rand"]);
    let bad: Vec<String> = bad.into_iter().map(|e| e.text).collect();
    assert_eq!(bad, vec!["=1.0.0", ""]);
}

#[test]
fn parse_specs_keeps_duplicates_and_order() {
    let (good, bad) = parse_specs(&strings(&["b", "a", "b"]));
    let texts: Vec<String> = good.iter().map(|k| k.text()).collect();
    assert_eq!(texts, vec!["b", "a", "b"]);
    assert!(bad.is_empty());
}

#[test]
fn text_forms() {
    assert_eq!(krate("serde").text(), "serde");
    let k = KrateName { name: "serde".to_string(), version: Some("1.0.0".to_string()) };
    assert_eq!(k.text(), "serde=1.0.0");
}

#[test]
fn space_characters() {
    for c in [' ', '\t', '\n', '\r', '\u{0B}', '\u{0C}', '\u{85}', '\u{A0}', '\u{2003}', '\u{3000}'] {
        assert!(is_space_char(c));
        assert!(c.is_whitespace());
    }
    for c in ['a', '=', '.', '\u{200B}', '0'] {
        assert!(!is_space_char(c));
    }
}

#[test]
fn space_matches_std_on_every_char() {
    for u in 0..=0x10FFFFu32 {
        if let Some(c) = char::from_u32(u) {
            assert_eq!(is_space_char(c), c.is_whitespace(), "{:x}", u);
        }
    }
}

#[test]
fn wildcard_request() {
    assert!(is_wildcard_request(&strings(&["serde", "*"])));
    assert!(!is_wildcard_request(&strings(&["serde", "**", " *"])));
    assert!(!is_wildcard_request(&strings(&[])));
}

#[test]
fn excluded_names() {
    assert!(is_excluded(".hidden"));
    assert!(is_excluded(".git"));
    assert!(is_excluded("meta.json"));
    assert!(is_excluded(".json"));
    assert!(!is_excluded("json"));
    assert!(!is_excluded("a"));
    assert!(!is_excluded("serde_json"));
}

fn entry(path: &[&str], is_file: bool) -> IndexEntry {
    IndexEntry { components: strings(path), is_file }
}

#[test]
fn wildcard_enumeration() {
    let entries = vec![
        entry(&["index"], false),
        entry(&["index", "a"], true),
        entry(&["index", "b"], true),
        entry(&["index", ".hidden"], true),
        entry(&["index", "meta.json"], true),
        entry(&["index", "c"], false),
        entry(&["index", "c", "d"], true),
        entry(&["index", ".git"], false),
        entry(&["index", ".git", "HEAD"], true),
    ];
    let names = names_from_index(&entries);
    let texts: Vec<String> = names.iter().map(|k| k.text()).collect();
    assert_eq!(texts, vec!["a", "b", "d"]);
    assert!(names.iter().all(|k| k.version.is_none()));
}

#[test]
fn decimal_numbers() {
    assert_eq!(decimal_text(0), "0");
    assert_eq!(decimal_text(7), "7");
    assert_eq!(decimal_text(10), "10");
    assert_eq!(decimal_text(1203), "1203");
    assert_eq!(decimal_text(u64::MAX), u64::MAX.to_string());
}

#[test]
fn record_texts() {
    let s = Outcome::Success { build_ms: 1500, test_ms: Some(20), bench_ms: None };
    assert_eq!(s.record_text(), "success: build 1500 ms, test 20 ms");
    let s = Outcome::Success { build_ms: 3, test_ms: None, bench_ms: Some(40) };
    assert_eq!(s.record_text(), "success: build 3 ms, bench 40 ms");
    assert_eq!(Outcome::NotFound.record_text(), "not-found");
    let d = Outcome::DownloadFailed { cause: "timeout".to_string() };
    assert_eq!(d.record_text(), "download-failed: timeout");
    let b = Outcome::BuildFailed { message: "E0425".to_string() };
    assert_eq!(b.record_text(), "build-failed: E0425");
    let t = Outcome::TestFailed { message: "2 failed".to_string() };
    assert_eq!(t.record_text(), "test-failed: 2 failed");
    let c = Outcome::Crashed { message: "signal 11".to_string() };
    assert_eq!(c.record_text(), "crashed: signal 11");
    assert!(!c.is_success());
}

#[test]
fn crash_record_message() {
    match crash_outcome("signal: 11") {
        Outcome::Crashed { message } => {
            assert_eq!(message, "no result recorded; exit status: signal: 11")
        }
        _ => panic!("expected a crash"),
    }
}

#[test]
fn layout_paths() {
    let c = config(false);
    let k = KrateName { name: "serde".to_string(), version: Some("1.0".to_string()) };
    assert_eq!(c.index_dir(), "work/index");
    assert_eq!(c.index_staging_dir(), "work/.index");
    assert_eq!(c.build_home(), "work/.cargo");
    assert_eq!(c.stdio_dir(&k), "work/stdio/serde=1.0");
    assert_eq!(c.stdout_path(&k), "work/stdio/serde=1.0/stdout");
    assert_eq!(c.stderr_path(&k), "work/stdio/serde=1.0/stderr");
    assert_eq!(c.result_dir(&k), "work/results/serde=1.0");
    assert_eq!(c.result_path(&k), "work/results/serde=1.0/results.txt");
}

#[test]
fn child_arguments() {
    let mut c = config(false);
    c.run_tests = true;
    c.release = true;
    assert_eq!(c.child_args(&krate("rand")), strings(&["--recurse", "--out", "work", "--test", "--release", "rand"]));
    let mut c = config(true);
    c.run_benchmarks = true;
    assert_eq!(c.flags(), strings(&["--out", "work", "--bench", "--force"]));
}

#[test]
fn recursive_mode_detection() {
    assert!(is_recursive_invocation(&strings(&["prog", "--recurse", "--out", "w", "a"])));
    assert!(!is_recursive_invocation(&strings(&["prog", "a", "--recurse"])));
    assert!(!is_recursive_invocation(&strings(&["prog"])));
    assert!(!is_recursive_invocation(&strings(&[])));
    assert!(same_text("abc", "abc"));
    assert!(!same_text("abc", "abd"));
    assert!(!same_text("ab", "abc"));
}

fn finish(a: &Attempt) -> Outcome {
    match a.pending() {
        Work::Record { outcome } => outcome.clone(),
        _ => panic!("the attempt is not finished"),
    }
}

#[test]
fn attempt_full_success() {
    let mut a = Attempt::new(true, true);
    assert!(matches!(a.pending(), Work::Resolve));
    a.advance(StageReport::Resolved);
    assert!(matches!(a.pending(), Work::Compile));
    a.advance(StageReport::Built { ms: 100 });
    assert!(matches!(a.pending(), Work::Test));
    a.advance(StageReport::Tested { ms: 20 });
    assert!(matches!(a.pending(), Work::Bench));
    a.advance(StageReport::Benched { ms: 5 });
    assert_eq!(finish(&a).record_text(), "success: build 100 ms, test 20 ms, bench 5 ms");
}

#[test]
fn attempt_build_only() {
    let mut a = Attempt::new(false, false);
    a.advance(StageReport::Resolved);
    a.advance(StageReport::Built { ms: 9 });
    assert_eq!(finish(&a).record_text(), "success: build 9 ms");
}

#[test]
fn attempt_bench_failure_is_not_fatal() {
    let mut a = Attempt::new(false, true);
    a.advance(StageReport::Resolved);
    a.advance(StageReport::Built { ms: 9 });
    assert!(matches!(a.pending(), Work::Bench));
    a.advance(StageReport::BenchFailed { message: "panicked".to_string() });
    assert_eq!(finish(&a).record_text(), "success: build 9 ms");
}

#[test]
fn attempt_failures() {
    let mut a = Attempt::new(true, false);
    a.advance(StageReport::NotFound);
    assert!(matches!(finish(&a), Outcome::NotFound));

    let mut a = Attempt::new(true, false);
    a.advance(StageReport::DownloadFailed { cause: "404".to_string() });
    assert_eq!(finish(&a).record_text(), "download-failed: 404");

    let mut a = Attempt::new(true, false);
    a.advance(StageReport::Resolved);
    a.advance(StageReport::BuildFailed { message: "bad".to_string() });
    assert_eq!(finish(&a).record_text(), "build-failed: bad");

    let mut a = Attempt::new(true, true);
    a.advance(StageReport::Resolved);
    a.advance(StageReport::Built { ms: 1 });
    a.advance(StageReport::TestFailed { message: "1 failed".to_string() });
    assert_eq!(finish(&a).record_text(), "test-failed: 1 failed");
}

#[test]
fn attempt_ignores_unrelated_reports() {
    let mut a = Attempt::new(false, false);
    a.advance(StageReport::Built { ms: 3 });
    assert!(matches!(a.pending(), Work::Resolve));
    a.advance(StageReport::Resolved);
    a.advance(StageReport::Tested { ms: 3 });
    assert!(matches!(a.pending(), Work::Compile));
}

/// What a run did, as seen from outside.
struct Trace {
    attempted: Vec<String>,
    reused: Vec<String>,
    crashed: Vec<String>,
}

/// Runs the driver against an in-memory store; packages named in `crashing`
/// end their attempt without a record.
fn run(names: &[&str], force: bool, store: &mut HashSet<String>, crashing: &[&str]) -> Trace {
    let packages: Vec<KrateName> = names.iter().map(|n| krate(n)).collect();
    let mut d = Driver::new(packages, force);
    let mut t = Trace { attempted: vec![], reused: vec![], crashed: vec![] };
    loop {
        let ev = match d.pending().clone() {
            Action::Check { index } => {
                Event::Checked { present: store.contains(&d.package(index).text()) }
            }
            Action::Reuse { index } => {
                t.reused.push(d.package(index).text());
                Event::Done
            }
            Action::Attempt { index } => {
                let key = d.package(index).text();
                store.remove(&key);
                t.attempted.push(key.clone());
                let crashes = crashing.contains(&key.as_str());
                if !crashes {
                    store.insert(key);
                }
                Event::Attempted { record_written: !crashes, status: "exit status: 101".to_string() }
            }
            Action::RecordCrash { index, status } => {
                assert!(matches!(crash_outcome(&status), Outcome::Crashed { .. }));
                let key = d.package(index).text();
                t.crashed.push(key.clone());
                store.insert(key);
                Event::Done
            }
            Action::Finished => return t,
        };
        d.step(ev);
    }
}

#[test]
fn run_twice_does_no_more_work() {
    let mut store = HashSet::new();
    let first = run(&["a", "b", "c"], false, &mut store, &["b"]);
    assert_eq!(first.attempted, vec!["a", "b", "c"]);
    let after_first = store.clone();
    let second = run(&["a", "b", "c"], false, &mut store, &[]);
    assert!(second.attempted.is_empty());
    assert!(second.crashed.is_empty());
    assert_eq!(second.reused, vec!["a", "b", "c"]);
    assert_eq!(store, after_first);
}

#[test]
fn crash_is_contained() {
    let mut store = HashSet::new();
    let t = run(&["a", "boom", "c"], false, &mut store, &["boom"]);
    assert_eq!(t.attempted, vec!["a", "boom", "c"]);
    assert_eq!(t.crashed, vec!["boom"]);
    assert!(store.contains("c"));
}

#[test]
fn resume_after_stop() {
    let mut store: HashSet<String> = ["a", "b"].iter().map(|s| s.to_string()).collect();
    let t = run(&["a", "b", "c", "d"], false, &mut store, &[]);
    assert_eq!(t.reused, vec!["a", "b"]);
    assert_eq!(t.attempted, vec!["c", "d"]);
}

#[test]
fn force_redoes_everything() {
    let mut store: HashSet<String> = ["a", "b"].iter().map(|s| s.to_string()).collect();
    let t = run(&["a", "b", "c"], true, &mut store, &[]);
    assert_eq!(t.attempted, vec!["a", "b", "c"]);
    assert!(t.reused.is_empty());
}

#[test]
fn every_package_gets_a_record() {
    let mut store = HashSet::new();
    let names = ["x", "y", "x", "z"];
    run(&names, false, &mut store, &["y", "z"]);
    for n in names {
        assert!(store.contains(n));
    }
    assert_eq!(store.len(), 3);
}

#[test]
fn duplicate_is_attempted_once_without_force() {
    let mut store = HashSet::new();
    let t = run(&["x", "x"], false, &mut store, &[]);
    assert_eq!(t.attempted, vec!["x"]);
    assert_eq!(t.reused, vec!["x"]);
}

#[test]
fn empty_run_finishes_at_once() {
    let mut store = HashSet::new();
    let t = run(&[], false, &mut store, &[]);
    assert!(t.attempted.is_empty() && t.reused.is_empty());
}

#[test]
fn driver_ignores_unrelated_events() {
    let mut d = Driver::new(vec![krate("a")], false);
    d.step(Event::Done);
    assert!(matches!(d.pending(), Action::Check { index: 0 }));
    d.step(Event::Checked { present: false });
    assert!(matches!(d.pending(), Action::Attempt { index: 0 }));
    d.step(Event::Checked { present: true });
    assert!(matches!(d.pending(), Action::Attempt { index: 0 }));
    d.step(Event::Attempted { record_written: true, status: String::new() });
    assert!(matches!(d.pending(), Action::Finished));
}
