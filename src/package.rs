//! Package identifiers and the `name[=version]` specifier grammar.

use vstd::prelude::*;

verus! {

/// Unicode white space, the characters for which `char::is_whitespace` holds.
pub open spec fn is_space(c: char) -> bool {
    let u = c as u32;
    (0x9 <= u && u <= 0xD) || u == 0x20 || u == 0x85 || u == 0xA0 || u == 0x1680
        || (0x2000 <= u && u <= 0x200A) || u == 0x2028 || u == 0x2029 || u == 0x202F
        || u == 0x205F || u == 0x3000
}

/// A name or version token: not empty, with neither `=` nor white space.
pub open spec fn is_token(t: Seq<char>) -> bool {
    &&& t.len() > 0
    &&& forall|i: int| 0 <= i < t.len() ==> !is_space(#[trigger] t[i]) && t[i] != '='
}

/// `s` without its leading white space.
pub open spec fn trim_start(s: Seq<char>) -> Seq<char>
    decreases s.len(),
{
    if s.len() > 0 && is_space(s[0]) {
        trim_start(s.drop_first())
    } else {
        s
    }
}

/// `s` without its trailing white space.
pub open spec fn trim_end(s: Seq<char>) -> Seq<char>
    decreases s.len(),
{
    if s.len() > 0 && is_space(s.last()) {
        trim_end(s.drop_last())
    } else {
        s
    }
}

pub open spec fn trimmed(s: Seq<char>) -> Seq<char> {
    trim_end(trim_start(s))
}

/// `t` is a name token, `=` at `k`, and a version token.
pub open spec fn splits_at(t: Seq<char>, k: int) -> bool {
    &&& 0 <= k < t.len()
    &&& t[k] == '='
    &&& is_token(t.take(k))
    &&& is_token(t.skip(k + 1))
}

/// What a specifier denotes: its name and optional version, or `None` where
/// it does not follow the grammar.
pub open spec fn parse_view(s: Seq<char>) -> Option<(Seq<char>, Option<Seq<char>>)> {
    let t = trimmed(s);
    if is_token(t) {
        Some((t, None))
    } else if exists|k: int| splits_at(t, k) {
        let k = choose|k: int| splits_at(t, k);
        Some((t.take(k), Some(t.skip(k + 1))))
    } else {
        None
    }
}

/// The text form of an identifier: `name`, or `name=version`.
pub open spec fn display_of(name: Seq<char>, version: Option<Seq<char>>) -> Seq<char> {
    match version {
        Some(v) => name + seq!['='] + v,
        None => name,
    }
}

/// A package to process: a name, and the version constraint if one was given.
#[derive(Clone, Debug)]
pub struct KrateName {
    pub name: String,
    pub version: Option<String>,
}

pub open spec fn opt_view(v: Option<String>) -> Option<Seq<char>> {
    match v {
        Some(s) => Some(s@),
        None => None,
    }
}

impl View for KrateName {
    type V = (Seq<char>, Option<Seq<char>>);

    open spec fn view(&self) -> (Seq<char>, Option<Seq<char>>) {
        (self.name@, opt_view(self.version))
    }
}

/// A specifier that does not follow the grammar, kept for the diagnostic.
#[derive(Clone, Debug)]
pub struct SpecError {
    pub text: String,
}

pub fn is_space_char(c: char) -> (r: bool)
    ensures
        r == is_space(c),
{
    let u = c as u32;
    (0x9 <= u && u <= 0xD) || u == 0x20 || u == 0x85 || u == 0xA0 || u == 0x1680 || (0x2000 <= u
        && u <= 0x200A) || u == 0x2028 || u == 0x2029 || u == 0x202F || u == 0x205F || u == 0x3000
}

/// Whether `s[from..to]` is a token.
fn token_between(s: &str, from: usize, to: usize) -> (r: bool)
    requires
        from <= to <= s@.len(),
    ensures
        r == is_token(s@.subrange(from as int, to as int)),
{
    if from == to {
        return false;
    }
    let mut i: usize = from;
    while i < to
        invariant
            from <= i <= to <= s@.len(),
            forall|j: int| from <= j < i ==> !is_space(#[trigger] s@[j]) && s@[j] != '=',
        decreases to - i,
    {
        let c = s.get_char(i);
        if is_space_char(c) || c == '=' {
            assert(s@.subrange(from as int, to as int)[i - from] == c);
            return false;
        }
        i = i + 1;
    }
    proof {
        let t = s@.subrange(from as int, to as int);
        assert forall|j: int| 0 <= j < t.len() implies !is_space(#[trigger] t[j]) && t[j] != '=' by {
            assert(t[j] == s@[from + j]);
        }
    }
    true
}

proof fn lemma_trim_start_step(s: Seq<char>, i: int)
    requires
        0 <= i < s.len(),
        is_space(s[i]),
    ensures
        trim_start(s.subrange(i, s.len() as int)) == trim_start(s.subrange(i + 1, s.len() as int)),
{
    let a = s.subrange(i, s.len() as int);
    assert(a.drop_first() =~= s.subrange(i + 1, s.len() as int));
}

proof fn lemma_trim_end_step(s: Seq<char>, lo: int, hi: int)
    requires
        0 <= lo < hi <= s.len(),
        is_space(s[hi - 1]),
    ensures
        trim_end(s.subrange(lo, hi)) == trim_end(s.subrange(lo, hi - 1)),
{
    let a = s.subrange(lo, hi);
    assert(a.drop_last() =~= s.subrange(lo, hi - 1));
}

/// Where `k` is the first `=` of `t`, no other position splits `t`.
proof fn lemma_split_unique(t: Seq<char>, k: int)
    requires
        0 <= k < t.len(),
        t[k] == '=',
        forall|j: int| 0 <= j < k ==> t[j] != '=',
    ensures
        forall|j: int| #[trigger] splits_at(t, j) ==> j == k,
{
    assert forall|j: int| #[trigger] splits_at(t, j) implies j == k by {
        if k < j {
            assert(t.take(j)[k] == '=');
        }
    }
}

/// The bounds of `s` without its leading and trailing white space.
fn trim_bounds(s: &str) -> (r: (usize, usize))
    ensures
        r.0 <= r.1 <= s@.len(),
        trimmed(s@) == s@.subrange(r.0 as int, r.1 as int),
{
    let n = s.unicode_len();
    let mut lo: usize = 0;
    proof {
        assert(s@.subrange(0, n as int) =~= s@);
    }
    while lo < n && is_space_char(s.get_char(lo))
        invariant
            lo <= n == s@.len(),
            trim_start(s@) == trim_start(s@.subrange(lo as int, n as int)),
        decreases n - lo,
    {
        proof {
            lemma_trim_start_step(s@, lo as int);
        }
        lo = lo + 1;
    }
    let ghost tail = s@.subrange(lo as int, n as int);
    assert(trim_start(tail) == tail) by {
        if tail.len() > 0 {
            assert(tail[0] == s@[lo as int]);
        }
    }
    let mut hi: usize = n;
    while hi > lo && is_space_char(s.get_char(hi - 1))
        invariant
            lo <= hi <= n == s@.len(),
            trimmed(s@) == trim_end(s@.subrange(lo as int, hi as int)),
        decreases hi,
    {
        proof {
            lemma_trim_end_step(s@, lo as int, hi as int);
        }
        hi = hi - 1;
    }
    let ghost core = s@.subrange(lo as int, hi as int);
    assert(trim_end(core) == core) by {
        if core.len() > 0 {
            assert(core.last() == s@[hi - 1]);
        }
    }
    (lo, hi)
}

impl KrateName {
    /// Parses a `name[=version]` specifier, with optional white space around it.
    pub fn parse(s: &str) -> (r: Result<KrateName, SpecError>)
        ensures
            r is Ok <==> parse_view(s@) is Some,
            r matches Ok(k) ==> parse_view(s@) == Some(k@),
            r matches Err(e) ==> e.text@ == s@,
    {
        let (lo, hi) = trim_bounds(s);
        let ghost t = s@.subrange(lo as int, hi as int);
        let mut e: usize = lo;
        while e < hi && s.get_char(e) != '='
            invariant
                lo <= e <= hi <= s@.len(),
                t == s@.subrange(lo as int, hi as int),
                forall|j: int| lo <= j < e ==> s@[j] != '=',
            decreases hi - e,
        {
            e = e + 1;
        }
        let ghost k = e - lo;
        if e == hi {
            proof {
                assert forall|j: int| !splits_at(t, j) by {
                    if 0 <= j < t.len() {
                        assert(t[j] == s@[lo + j]);
                    }
                }
            }
            if token_between(s, lo, hi) {
                let name = String::from_str(s.substring_char(lo, hi));
                return Ok(KrateName { name, version: None });
            }
            return Err(SpecError { text: String::from_str(s) });
        }
        proof {
            assert(t[k] == s@[e as int]);
            assert forall|j: int| 0 <= j < k implies t[j] != '=' by {
                assert(t[j] == s@[lo + j]);
            }
            lemma_split_unique(t, k);
            assert(t.take(k) =~= s@.subrange(lo as int, e as int));
            assert(t.skip(k + 1) =~= s@.subrange(e + 1, hi as int));
            assert(!is_token(t)) by {
                assert(t[k] == '=');
            }
        }
        if token_between(s, lo, e) && token_between(s, e + 1, hi) {
            assert(splits_at(t, k));
            let name = String::from_str(s.substring_char(lo, e));
            let version = String::from_str(s.substring_char(e + 1, hi));
            return Ok(KrateName { name, version: Some(version) });
        }
        Err(SpecError { text: String::from_str(s) })
    }

    /// The text form: `name`, or `name=version`.
    pub fn text(&self) -> (r: String)
        ensures
            r@ == display_of(self@.0, self@.1),
    {
        let mut r = self.name.clone();
        match &self.version {
            Some(v) => {
                r.append("=");
                r.append(v.as_str());
                proof {
                    reveal_strlit("=");
                }
            },
            None => {},
        }
        r
    }
}

} // verus!
