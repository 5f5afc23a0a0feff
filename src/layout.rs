//! The run configuration, the on-disk layout under the output directory, and
//! the argument list of the hidden single-package mode.

use vstd::prelude::*;
use crate::package::{KrateName, display_of};

verus! {

/// The first argument of the hidden mode that runs exactly one package.
pub open spec fn recurse_flag() -> Seq<char> {
    "--recurse"@
}

/// The settings of one run, passed explicitly to every component.
#[derive(Clone, Debug)]
pub struct RunConfig {
    pub out_dir: String,
    pub run_tests: bool,
    pub run_benchmarks: bool,
    pub release: bool,
    pub force: bool,
}

pub open spec fn flag_if(on: bool, flag: Seq<char>) -> Seq<Seq<char>> {
    if on {
        seq![flag]
    } else {
        seq![]
    }
}

/// The flags that restate a configuration on a command line.
pub open spec fn config_flags(c: RunConfig) -> Seq<Seq<char>> {
    seq!["--out"@, c.out_dir@] + flag_if(c.run_tests, "--test"@) + flag_if(
        c.run_benchmarks,
        "--bench"@,
    ) + flag_if(c.release, "--release"@) + flag_if(c.force, "--force"@)
}

pub open spec fn strings_view(v: Seq<String>) -> Seq<Seq<char>> {
    v.map_values(|s: String| s@)
}

/// `a`, `/`, then `b`.
pub open spec fn under(a: Seq<char>, b: Seq<char>) -> Seq<char> {
    a + seq!['/'] + b
}

fn join(a: &str, b: &str) -> (r: String)
    ensures
        r@ == under(a@, b@),
{
    let mut r = String::from_str(a);
    r.append("/");
    r.append(b);
    proof {
        reveal_strlit("/");
    }
    r
}

/// Whether two texts are equal.
pub fn same_text(a: &str, b: &str) -> (r: bool)
    ensures
        r == (a@ == b@),
{
    let n = a.unicode_len();
    if n != b.unicode_len() {
        return false;
    }
    let mut i: usize = 0;
    while i < n
        invariant
            i <= n == a@.len() == b@.len(),
            forall|j: int| 0 <= j < i ==> a@[j] == b@[j],
        decreases n - i,
    {
        if a.get_char(i) != b.get_char(i) {
            return false;
        }
        i = i + 1;
    }
    assert(a@ =~= b@);
    true
}

/// Whether a command line asks for the hidden single-package mode: its
/// first argument after the program's own name is the flag.
pub fn is_recursive_invocation(args: &Vec<String>) -> (r: bool)
    ensures
        r == (args@.len() > 1 && args@[1]@ == recurse_flag()),
{
    args.len() > 1 && same_text(args[1].as_str(), "--recurse")
}

fn push_flag(v: &mut Vec<String>, on: bool, flag: &str)
    ensures
        strings_view(final(v)@) == strings_view(old(v)@) + flag_if(on, flag@),
{
    let ghost start = v@;
    if on {
        v.push(String::from_str(flag));
    }
    assert(strings_view(v@) =~= strings_view(start) + flag_if(on, flag@));
}

impl RunConfig {
    /// The flags that restate this configuration on a command line.
    pub fn flags(&self) -> (r: Vec<String>)
        ensures
            strings_view(r@) == config_flags(*self),
    {
        let mut r: Vec<String> = Vec::new();
        r.push(String::from_str("--out"));
        r.push(self.out_dir.clone());
        assert(strings_view(r@) =~= seq!["--out"@, self.out_dir@]);
        push_flag(&mut r, self.run_tests, "--test");
        push_flag(&mut r, self.run_benchmarks, "--bench");
        push_flag(&mut r, self.release, "--release");
        push_flag(&mut r, self.force, "--force");
        r
    }

    /// The arguments of a child that attempts one package: the hidden flag,
    /// this configuration, and the package.
    pub fn child_args(&self, k: &KrateName) -> (r: Vec<String>)
        ensures
            strings_view(r@) == seq![recurse_flag()] + config_flags(*self) + seq![
                display_of(k@.0, k@.1),
            ],
    {
        let mut r: Vec<String> = Vec::new();
        r.push(String::from_str("--recurse"));
        let mut f = self.flags();
        let ghost fv = f@;
        r.append(&mut f);
        r.push(k.text());
        assert(strings_view(r@) =~= seq![recurse_flag()] + strings_view(fv) + seq![
            display_of(k@.0, k@.1),
        ]);
        r
    }

    /// The mirrored registry index.
    pub fn index_dir(&self) -> (r: String)
        ensures
            r@ == under(self.out_dir@, "index"@),
    {
        join(self.out_dir.as_str(), "index")
    }

    /// Where the index is cloned before it is moved into place.
    pub fn index_staging_dir(&self) -> (r: String)
        ensures
            r@ == under(self.out_dir@, ".index"@),
    {
        join(self.out_dir.as_str(), ".index")
    }

    /// The build tool's home for this run, shared by all packages.
    pub fn build_home(&self) -> (r: String)
        ensures
            r@ == under(self.out_dir@, ".cargo"@),
    {
        join(self.out_dir.as_str(), ".cargo")
    }

    /// The directory of a package's captured standard output and error.
    pub fn stdio_dir(&self, k: &KrateName) -> (r: String)
        ensures
            r@ == under(under(self.out_dir@, "stdio"@), display_of(k@.0, k@.1)),
    {
        let d = join(self.out_dir.as_str(), "stdio");
        join(d.as_str(), k.text().as_str())
    }

    pub fn stdout_path(&self, k: &KrateName) -> (r: String)
        ensures
            r@ == under(under(under(self.out_dir@, "stdio"@), display_of(k@.0, k@.1)), "stdout"@),
    {
        join(self.stdio_dir(k).as_str(), "stdout")
    }

    pub fn stderr_path(&self, k: &KrateName) -> (r: String)
        ensures
            r@ == under(under(under(self.out_dir@, "stdio"@), display_of(k@.0, k@.1)), "stderr"@),
    {
        join(self.stdio_dir(k).as_str(), "stderr")
    }

    /// The directory of a package's result record.
    pub fn result_dir(&self, k: &KrateName) -> (r: String)
        ensures
            r@ == under(under(self.out_dir@, "results"@), display_of(k@.0, k@.1)),
    {
        let d = join(self.out_dir.as_str(), "results");
        join(d.as_str(), k.text().as_str())
    }

    /// The result record, whose presence marks the package as done.
    pub fn result_path(&self, k: &KrateName) -> (r: String)
        ensures
            r@ == under(
                under(under(self.out_dir@, "results"@), display_of(k@.0, k@.1)),
                "results.txt"@,
            ),
    {
        join(self.result_dir(k).as_str(), "results.txt")
    }
}

} // verus!
