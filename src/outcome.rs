//! The outcome taxonomy and the text of a result record.

use vstd::prelude::*;

verus! {

/// How one package's attempt ended. Times are in milliseconds.
#[derive(Clone, Debug)]
pub enum Outcome {
    Success { build_ms: u64, test_ms: Option<u64>, bench_ms: Option<u64> },
    NotFound,
    DownloadFailed { cause: String },
    BuildFailed { message: String },
    TestFailed { message: String },
    Crashed { message: String },
}

pub open spec fn digit(d: nat) -> char {
    seq!['0', '1', '2', '3', '4', '5', '6', '7', '8', '9'][d as int]
}

/// The decimal digits of `n`, without leading zeros.
pub open spec fn decimal(n: nat) -> Seq<char>
    decreases n,
{
    if n < 10 {
        seq![digit(n)]
    } else {
        decimal(n / 10).push(digit(n % 10))
    }
}

/// `, <stage> <t> ms` where a time was taken, nothing otherwise.
pub open spec fn time_part(stage: Seq<char>, t: Option<u64>) -> Seq<char> {
    match t {
        Some(ms) => ", "@ + stage + " "@ + decimal(ms as nat) + " ms"@,
        None => seq![],
    }
}

/// The one-line record of an outcome: its kind, then what detail it carries.
pub open spec fn record_of(o: Outcome) -> Seq<char> {
    match o {
        Outcome::Success { build_ms, test_ms, bench_ms } => "success: build "@ + decimal(
            build_ms as nat,
        ) + " ms"@ + time_part("test"@, test_ms) + time_part("bench"@, bench_ms),
        Outcome::NotFound => "not-found"@,
        Outcome::DownloadFailed { cause } => "download-failed: "@ + cause@,
        Outcome::BuildFailed { message } => "build-failed: "@ + message@,
        Outcome::TestFailed { message } => "test-failed: "@ + message@,
        Outcome::Crashed { message } => "crashed: "@ + message@,
    }
}

fn digit_text(d: u64) -> (r: &'static str)
    requires
        d < 10,
    ensures
        r@ == seq![digit(d as nat)],
{
    proof {
        reveal_strlit("0");
        reveal_strlit("1");
        reveal_strlit("2");
        reveal_strlit("3");
        reveal_strlit("4");
        reveal_strlit("5");
        reveal_strlit("6");
        reveal_strlit("7");
        reveal_strlit("8");
        reveal_strlit("9");
    }
    let r = match d {
        0 => "0",
        1 => "1",
        2 => "2",
        3 => "3",
        4 => "4",
        5 => "5",
        6 => "6",
        7 => "7",
        8 => "8",
        _ => "9",
    };
    assert(r@ =~= seq![digit(d as nat)]);
    r
}

/// The decimal text of a number.
pub fn decimal_text(n: u64) -> (r: String)
    ensures
        r@ == decimal(n as nat),
{
    let mut m: u64 = n;
    let mut s = String::new();
    while m >= 10
        invariant
            decimal(n as nat) == decimal(m as nat) + s@,
        decreases m,
    {
        let mut t = String::from_str(digit_text(m % 10));
        t.append(s.as_str());
        proof {
            assert(decimal(m as nat) + s@ =~= decimal((m / 10) as nat) + t@);
        }
        s = t;
        m = m / 10;
    }
    let mut t = String::from_str(digit_text(m));
    t.append(s.as_str());
    t
}

fn append_time(r: &mut String, stage: &str, t: Option<u64>)
    ensures
        final(r)@ == old(r)@ + time_part(stage@, t),
{
    match t {
        Some(ms) => {
            let ghost start = r@;
            r.append(", ");
            r.append(stage);
            r.append(" ");
            let d = decimal_text(ms);
            r.append(d.as_str());
            r.append(" ms");
            assert(r@ =~= start + time_part(stage@, t));
        },
        None => {
            assert(r@ =~= old(r)@ + time_part(stage@, t));
        },
    }
}

impl Outcome {
    /// The text of the result record for this outcome.
    pub fn record_text(&self) -> (r: String)
        ensures
            r@ == record_of(*self),
    {
        match self {
            Outcome::Success { build_ms, test_ms, bench_ms } => {
                let mut r = String::from_str("success: build ");
                let d = decimal_text(*build_ms);
                r.append(d.as_str());
                r.append(" ms");
                append_time(&mut r, "test", *test_ms);
                append_time(&mut r, "bench", *bench_ms);
                r
            },
            Outcome::NotFound => String::from_str("not-found"),
            Outcome::DownloadFailed { cause } => {
                let mut r = String::from_str("download-failed: ");
                r.append(cause.as_str());
                r
            },
            Outcome::BuildFailed { message } => {
                let mut r = String::from_str("build-failed: ");
                r.append(message.as_str());
                r
            },
            Outcome::TestFailed { message } => {
                let mut r = String::from_str("test-failed: ");
                r.append(message.as_str());
                r
            },
            Outcome::Crashed { message } => {
                let mut r = String::from_str("crashed: ");
                r.append(message.as_str());
                r
            },
        }
    }

    /// Whether the attempt succeeded.
    pub fn is_success(&self) -> (r: bool)
        ensures
            r == (*self is Success),
    {
        match self {
            Outcome::Success { .. } => true,
            _ => false,
        }
    }
}

} // verus!
