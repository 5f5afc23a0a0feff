//! Assembly of the ordered set of packages that one run processes.

use vstd::prelude::*;
use crate::package::{KrateName, SpecError, parse_view};

verus! {

/// The specifier that asks for every package of the mirrored index.
pub open spec fn is_wildcard(s: Seq<char>) -> bool {
    s == seq!['*']
}

/// A name that the index walk skips, with everything below it: hidden
/// entries and metadata files.
pub open spec fn is_excluded_name(n: Seq<char>) -> bool {
    (n.len() > 0 && n[0] == '.') || (n.len() >= 5 && n.skip(n.len() - 5) == seq![
        '.',
        'j',
        's',
        'o',
        'n',
    ])
}

/// The identifiers that a list of specifiers denotes, in order, leaving out
/// those that do not parse.
pub open spec fn accepted(ss: Seq<Seq<char>>) -> Seq<(Seq<char>, Option<Seq<char>>)>
    decreases ss.len(),
{
    if ss.len() == 0 {
        seq![]
    } else {
        let prev = accepted(ss.drop_last());
        match parse_view(ss.last()) {
            Some(k) => prev.push(k),
            None => prev,
        }
    }
}

/// The specifiers of a list that do not parse, in order.
pub open spec fn rejected(ss: Seq<Seq<char>>) -> Seq<Seq<char>>
    decreases ss.len(),
{
    if ss.len() == 0 {
        seq![]
    } else {
        let prev = rejected(ss.drop_last());
        match parse_view(ss.last()) {
            Some(k) => prev,
            None => prev.push(ss.last()),
        }
    }
}

/// One entry of a walk of the index directory: the names on its path, the
/// index root's own name first, and whether it is a regular file.
#[derive(Clone, Debug)]
pub struct IndexEntry {
    pub components: Vec<String>,
    pub is_file: bool,
}

impl View for IndexEntry {
    type V = (Seq<Seq<char>>, bool);

    open spec fn view(&self) -> (Seq<Seq<char>>, bool) {
        (self.components.deep_view(), self.is_file)
    }
}

/// An entry names a package where it is a file and neither it nor a
/// directory above it is excluded.
pub open spec fn is_package_entry(e: (Seq<Seq<char>>, bool)) -> bool {
    &&& e.1
    &&& e.0.len() > 0
    &&& forall|i: int| 0 <= i < e.0.len() ==> !is_excluded_name(#[trigger] e.0[i])
}

/// The package names that a walk of the index yields, in walk order.
pub open spec fn index_names(es: Seq<(Seq<Seq<char>>, bool)>) -> Seq<Seq<char>>
    decreases es.len(),
{
    if es.len() == 0 {
        seq![]
    } else {
        let prev = index_names(es.drop_last());
        let e = es.last();
        if is_package_entry(e) {
            prev.push(e.0.last())
        } else {
            prev
        }
    }
}

pub open spec fn entry_views(v: Seq<IndexEntry>) -> Seq<(Seq<Seq<char>>, bool)> {
    v.map_values(|e: IndexEntry| e@)
}

pub open spec fn krate_views(v: Seq<KrateName>) -> Seq<(Seq<char>, Option<Seq<char>>)> {
    v.map_values(|k: KrateName| k@)
}

pub open spec fn error_views(v: Seq<SpecError>) -> Seq<Seq<char>> {
    v.map_values(|e: SpecError| e.text@)
}

/// Whether the list asks for the whole index.
pub fn is_wildcard_request(specs: &Vec<String>) -> (r: bool)
    ensures
        r == exists|i: int| 0 <= i < specs@.len() && is_wildcard(#[trigger] specs@[i]@),
{
    let mut i: usize = 0;
    while i < specs.len()
        invariant
            i <= specs@.len(),
            forall|j: int| 0 <= j < i ==> !is_wildcard(#[trigger] specs@[j]@),
        decreases specs@.len() - i,
    {
        let s = specs[i].as_str();
        if s.unicode_len() == 1 && s.get_char(0) == '*' {
            assert(specs@[i as int]@ =~= seq!['*']);
            return true;
        }
        i = i + 1;
    }
    false
}

/// Whether the index walk skips an entry of this name.
pub fn is_excluded(name: &str) -> (r: bool)
    ensures
        r == is_excluded_name(name@),
{
    let n = name.unicode_len();
    if n > 0 && name.get_char(0) == '.' {
        return true;
    }
    if n < 5 {
        return false;
    }
    let r = name.get_char(n - 5) == '.' && name.get_char(n - 4) == 'j' && name.get_char(n - 3)
        == 's' && name.get_char(n - 2) == 'o' && name.get_char(n - 1) == 'n';
    let ghost tail = name@.skip(n - 5);
    assert(r ==> tail =~= seq!['.', 'j', 's', 'o', 'n']);
    assert(tail == seq!['.', 'j', 's', 'o', 'n'] ==> r) by {
        if tail == seq!['.', 'j', 's', 'o', 'n'] {
            assert(tail[0] == name@[n - 5]);
            assert(tail[1] == name@[n - 4]);
            assert(tail[2] == name@[n - 3]);
            assert(tail[3] == name@[n - 2]);
            assert(tail[4] == name@[n - 1]);
        }
    }
    r
}

/// Parses each specifier on its own: those that parse, in order, and those
/// that do not, in order. One bad specifier does not stop the others.
pub fn parse_specs(specs: &Vec<String>) -> (r: (Vec<KrateName>, Vec<SpecError>))
    ensures
        krate_views(r.0@) == accepted(specs.deep_view()),
        error_views(r.1@) == rejected(specs.deep_view()),
{
    let mut good: Vec<KrateName> = Vec::new();
    let mut bad: Vec<SpecError> = Vec::new();
    let mut i: usize = 0;
    while i < specs.len()
        invariant
            i <= specs@.len(),
            krate_views(good@) == accepted(specs.deep_view().take(i as int)),
            error_views(bad@) == rejected(specs.deep_view().take(i as int)),
        decreases specs@.len() - i,
    {
        let ghost ss = specs.deep_view();
        proof {
            assert(ss.take(i + 1).drop_last() =~= ss.take(i as int));
            assert(ss.take(i + 1).last() == specs@[i as int]@);
        }
        match KrateName::parse(specs[i].as_str()) {
            Ok(k) => {
                let ghost prev = good@;
                good.push(k);
                assert(krate_views(good@) =~= krate_views(prev).push(k@));
            },
            Err(e) => {
                let ghost prev = bad@;
                bad.push(e);
                assert(error_views(bad@) =~= error_views(prev).push(e.text@));
            },
        }
        i = i + 1;
    }
    assert(specs.deep_view().take(specs@.len() as int) =~= specs.deep_view());
    (good, bad)
}

/// Whether an index entry names a package.
pub fn is_package(e: &IndexEntry) -> (r: bool)
    ensures
        r == is_package_entry(e@),
{
    if !e.is_file || e.components.len() == 0 {
        return false;
    }
    let mut i: usize = 0;
    while i < e.components.len()
        invariant
            i <= e.components@.len(),
            e@.0.len() == e.components@.len(),
            forall|j: int| 0 <= j < i ==> !is_excluded_name(#[trigger] e@.0[j]),
        decreases e.components@.len() - i,
    {
        assert(e@.0[i as int] == e.components@[i as int]@);
        if is_excluded(e.components[i].as_str()) {
            return false;
        }
        i = i + 1;
    }
    true
}

/// The packages of a walk of the index: the file name of each package
/// entry, with no version, in walk order.
pub fn names_from_index(entries: &Vec<IndexEntry>) -> (r: Vec<KrateName>)
    ensures
        krate_views(r@) == index_names(entry_views(entries@)).map_values(
            |n: Seq<char>| (n, None::<Seq<char>>),
        ),
{
    let mut out: Vec<KrateName> = Vec::new();
    let mut i: usize = 0;
    while i < entries.len()
        invariant
            i <= entries@.len(),
            krate_views(out@) == index_names(entry_views(entries@).take(i as int)).map_values(
                |n: Seq<char>| (n, None::<Seq<char>>),
            ),
        decreases entries@.len() - i,
    {
        let ghost es = entry_views(entries@);
        let ghost prev = out@;
        proof {
            assert(es.take(i + 1).drop_last() =~= es.take(i as int));
            assert(es.take(i + 1).last() == entries@[i as int]@);
        }
        let e = &entries[i];
        if is_package(e) {
            let last = e.components.len() - 1;
            let name = e.components[last].clone();
            out.push(KrateName { name, version: None });
            proof {
                let names = index_names(es.take(i as int));
                assert(e@.0.last() == name@);
                assert(out@ =~= prev.push(out@.last()));
                assert(index_names(es.take(i + 1)) == names.push(e@.0.last()));
                let f = |n: Seq<char>| (n, None::<Seq<char>>);
                assert(krate_views(out@) =~= krate_views(prev).push(out@.last()@));
                assert(out@.last()@ == f(e@.0.last()));
                assert(names.push(e@.0.last()).map_values(f) =~= names.map_values(f).push(
                    f(e@.0.last()),
                ));
            }
        }
        i = i + 1;
    }
    assert(entry_views(entries@).take(entries@.len() as int) =~= entry_views(entries@));
    out
}

} // verus!
