//! A model of whole runs of the driver against a result store, and the laws
//! that hold of them.
//!
//! The store is the set of package texts that have a record. A check is
//! answered from it; an attempt first deletes the package's record, and the
//! isolated child writes a new one unless it crashes (the packages whose
//! positions are in `crashing`); a crash record is then written by the run.

use vstd::prelude::*;
use crate::driver::{Action, Event, advance, driver_next, must_attempt};

verus! {

/// What the caller reports for an action, given the store.
pub open spec fn env_event(
    a: Action,
    keys: Seq<Seq<char>>,
    recorded: Set<Seq<char>>,
    crashing: Set<int>,
    status: String,
) -> Event {
    match a {
        Action::Check { index } => Event::Checked { present: recorded.contains(keys[index as int]) },
        Action::Attempt { index } => Event::Attempted {
            record_written: !crashing.contains(index as int),
            status,
        },
        _ => Event::Done,
    }
}

/// The store after an action is carried out.
pub open spec fn env_store(
    a: Action,
    keys: Seq<Seq<char>>,
    recorded: Set<Seq<char>>,
    crashing: Set<int>,
) -> Set<Seq<char>> {
    match a {
        Action::Attempt { index } => if crashing.contains(index as int) {
            recorded.remove(keys[index as int])
        } else {
            recorded.remove(keys[index as int]).insert(keys[index as int])
        },
        Action::RecordCrash { index, .. } => recorded.insert(keys[index as int]),
        _ => recorded,
    }
}

/// The actions that the driver issues from `a`, for at most `fuel` steps,
/// and the store at the end.
pub open spec fn run(
    keys: Seq<Seq<char>>,
    force: bool,
    a: Action,
    recorded: Set<Seq<char>>,
    crashing: Set<int>,
    status: String,
    fuel: nat,
) -> (Seq<Action>, Set<Seq<char>>)
    decreases fuel,
{
    if fuel == 0 || a is Finished {
        (seq![], recorded)
    } else {
        let ev = env_event(a, keys, recorded, crashing, status);
        let rest = run(
            keys,
            force,
            driver_next(keys.len(), force, a, ev),
            env_store(a, keys, recorded, crashing),
            crashing,
            status,
            (fuel - 1) as nat,
        );
        (seq![a] + rest.0, rest.1)
    }
}

/// A whole run over packages whose texts are `keys`, from the first check.
pub open spec fn whole_run(
    keys: Seq<Seq<char>>,
    force: bool,
    recorded: Set<Seq<char>>,
    crashing: Set<int>,
    status: String,
) -> (Seq<Action>, Set<Seq<char>>) {
    run(keys, force, advance(keys.len(), 0), recorded, crashing, status, 3 * keys.len() + 1)
}

/// The positions attempted, in the order of the actions.
pub open spec fn attempted(t: Seq<Action>) -> Seq<int>
    decreases t.len(),
{
    if t.len() == 0 {
        seq![]
    } else {
        let head = match t[0] {
            Action::Attempt { index } => seq![index as int],
            _ => Seq::<int>::empty(),
        };
        head + attempted(t.drop_first())
    }
}

/// The positions for which a crash was recorded, in order.
pub open spec fn crash_recorded(t: Seq<Action>) -> Seq<int>
    decreases t.len(),
{
    if t.len() == 0 {
        seq![]
    } else {
        let head = match t[0] {
            Action::RecordCrash { index, .. } => seq![index as int],
            _ => Seq::<int>::empty(),
        };
        head + crash_recorded(t.drop_first())
    }
}

/// The positions `from`, ..., `to - 1`.
pub open spec fn positions(from: int, to: int) -> Seq<int> {
    Seq::new((to - from) as nat, |k: int| from + k)
}

/// The positions of `s` that are in `c`, in order.
pub open spec fn among(s: Seq<int>, c: Set<int>) -> Seq<int>
    decreases s.len(),
{
    if s.len() == 0 {
        seq![]
    } else {
        let head = if c.contains(s[0]) {
            seq![s[0]]
        } else {
            Seq::<int>::empty()
        };
        head + among(s.drop_first(), c)
    }
}

/// The actions for the package at `i`, given the store before it.
pub open spec fn segment(
    keys: Seq<Seq<char>>,
    force: bool,
    recorded: Set<Seq<char>>,
    crashing: Set<int>,
    status: String,
    i: int,
) -> Seq<Action> {
    let u = i as usize;
    if !must_attempt(recorded.contains(keys[i]), force) {
        seq![Action::Check { index: u }, Action::Reuse { index: u }]
    } else if crashing.contains(i) {
        seq![
            Action::Check { index: u },
            Action::Attempt { index: u },
            Action::RecordCrash { index: u, status },
        ]
    } else {
        seq![Action::Check { index: u }, Action::Attempt { index: u }]
    }
}

/// The run from the package at `i`, one package after the other.
pub open spec fn plan(
    keys: Seq<Seq<char>>,
    force: bool,
    recorded: Set<Seq<char>>,
    crashing: Set<int>,
    status: String,
    i: int,
) -> (Seq<Action>, Set<Seq<char>>)
    decreases keys.len() - i,
{
    if i < 0 || i >= keys.len() {
        (seq![], recorded)
    } else {
        let rest = plan(keys, force, recorded.insert(keys[i]), crashing, status, i + 1);
        (segment(keys, force, recorded, crashing, status, i) + rest.0, rest.1)
    }
}

proof fn lemma_run_is_plan(
    keys: Seq<Seq<char>>,
    force: bool,
    recorded: Set<Seq<char>>,
    crashing: Set<int>,
    status: String,
    i: int,
    fuel: nat,
)
    requires
        keys.len() <= usize::MAX,
        0 <= i <= keys.len(),
        fuel >= 3 * (keys.len() - i) + 1,
    ensures
        run(keys, force, advance(keys.len(), i), recorded, crashing, status, fuel) == plan(
            keys,
            force,
            recorded,
            crashing,
            status,
            i,
        ),
    decreases keys.len() - i,
{
    let n = keys.len();
    if i < n {
        let k = keys[i];
        let u = i as usize;
        let a0 = Action::Check { index: u };
        assert(advance(n, i) == a0);
        let after = recorded.insert(k);
        let rest = plan(keys, force, after, crashing, status, i + 1);
        let seg = segment(keys, force, recorded, crashing, status, i);
        if !must_attempt(recorded.contains(k), force) {
            assert(after =~= recorded);
            lemma_run_is_plan(keys, force, recorded, crashing, status, i + 1, (fuel - 2) as nat);
            let a1 = Action::Reuse { index: u };
            let r1 = run(keys, force, a1, recorded, crashing, status, (fuel - 1) as nat);
            assert(r1 == (seq![a1] + rest.0, rest.1));
            assert(seq![a0] + r1.0 =~= seg + rest.0);
        } else if crashing.contains(i) {
            let s1 = recorded.remove(k);
            assert(s1.insert(k) =~= after);
            lemma_run_is_plan(keys, force, after, crashing, status, i + 1, (fuel - 3) as nat);
            let a1 = Action::Attempt { index: u };
            let a2 = Action::RecordCrash { index: u, status };
            let r2 = run(keys, force, a2, s1, crashing, status, (fuel - 2) as nat);
            assert(r2 == (seq![a2] + rest.0, rest.1));
            let r1 = run(keys, force, a1, recorded, crashing, status, (fuel - 1) as nat);
            assert(r1 == (seq![a1] + r2.0, r2.1));
            assert(seq![a0] + r1.0 =~= seg + rest.0);
        } else {
            assert(recorded.remove(k).insert(k) =~= after);
            lemma_run_is_plan(keys, force, after, crashing, status, i + 1, (fuel - 2) as nat);
            let a1 = Action::Attempt { index: u };
            let r1 = run(keys, force, a1, recorded, crashing, status, (fuel - 1) as nat);
            assert(r1 == (seq![a1] + rest.0, rest.1));
            assert(seq![a0] + r1.0 =~= seg + rest.0);
        }
    }
}

proof fn lemma_attempted_concat(a: Seq<Action>, b: Seq<Action>)
    ensures
        attempted(a + b) == attempted(a) + attempted(b),
        crash_recorded(a + b) == crash_recorded(a) + crash_recorded(b),
    decreases a.len(),
{
    if a.len() == 0 {
        assert(a + b =~= b);
        assert(attempted(a) + attempted(b) =~= attempted(b));
        assert(crash_recorded(a) + crash_recorded(b) =~= crash_recorded(b));
    } else {
        assert((a + b).drop_first() =~= a.drop_first() + b);
        assert((a + b)[0] == a[0]);
        lemma_attempted_concat(a.drop_first(), b);
        assert(attempted(a + b) =~= attempted(a) + attempted(b));
        assert(crash_recorded(a + b) =~= crash_recorded(a) + crash_recorded(b));
    }
}

proof fn lemma_among_concat(a: Seq<int>, b: Seq<int>, c: Set<int>)
    ensures
        among(a + b, c) == among(a, c) + among(b, c),
    decreases a.len(),
{
    if a.len() == 0 {
        assert(a + b =~= b);
        assert(among(a, c) + among(b, c) =~= among(b, c));
    } else {
        assert((a + b).drop_first() =~= a.drop_first() + b);
        assert((a + b)[0] == a[0]);
        lemma_among_concat(a.drop_first(), b, c);
        assert(among(a + b, c) =~= among(a, c) + among(b, c));
    }
}

proof fn lemma_segment(
    keys: Seq<Seq<char>>,
    force: bool,
    recorded: Set<Seq<char>>,
    crashing: Set<int>,
    status: String,
    i: int,
)
    requires
        0 <= i < keys.len() <= usize::MAX,
    ensures
        attempted(segment(keys, force, recorded, crashing, status, i)) == if must_attempt(
            recorded.contains(keys[i]),
            force,
        ) {
            seq![i]
        } else {
            Seq::<int>::empty()
        },
        crash_recorded(segment(keys, force, recorded, crashing, status, i)) == if must_attempt(
            recorded.contains(keys[i]),
            force,
        ) && crashing.contains(i) {
            seq![i]
        } else {
            Seq::<int>::empty()
        },
{
    let seg = segment(keys, force, recorded, crashing, status, i);
    let u = i as usize;
    let c0 = seq![Action::Check { index: u }];
    let a1 = seq![Action::Attempt { index: u }];
    lemma_single(Action::Check { index: u });
    lemma_single(Action::Reuse { index: u });
    lemma_single(Action::Attempt { index: u });
    lemma_single(Action::RecordCrash { index: u, status });
    if !must_attempt(recorded.contains(keys[i]), force) {
        assert(seg =~= c0 + seq![Action::Reuse { index: u }]);
        lemma_attempted_concat(c0, seq![Action::Reuse { index: u }]);
    } else if crashing.contains(i) {
        assert(seg =~= (c0 + a1) + seq![Action::RecordCrash { index: u, status }]);
        lemma_attempted_concat(c0, a1);
        lemma_attempted_concat(c0 + a1, seq![Action::RecordCrash { index: u, status }]);
    } else {
        assert(seg =~= c0 + a1);
        lemma_attempted_concat(c0, a1);
    }
    assert(attempted(seg) =~= if must_attempt(recorded.contains(keys[i]), force) {
        seq![i]
    } else {
        Seq::<int>::empty()
    });
    assert(crash_recorded(seg) =~= if must_attempt(recorded.contains(keys[i]), force)
        && crashing.contains(i) {
        seq![i]
    } else {
        Seq::<int>::empty()
    });
}

proof fn lemma_single(a: Action)
    ensures
        attempted(seq![a]) == match a {
            Action::Attempt { index } => seq![index as int],
            _ => Seq::<int>::empty(),
        },
        crash_recorded(seq![a]) == match a {
            Action::RecordCrash { index, .. } => seq![index as int],
            _ => Seq::<int>::empty(),
        },
{
    assert(seq![a].drop_first() =~= Seq::<Action>::empty());
    assert(seq![a][0] == a);
    assert(attempted(Seq::<Action>::empty()) == Seq::<int>::empty());
    assert(crash_recorded(Seq::<Action>::empty()) == Seq::<int>::empty());
    assert(attempted(seq![a]) =~= match a {
        Action::Attempt { index } => seq![index as int],
        _ => Seq::<int>::empty(),
    });
    assert(crash_recorded(seq![a]) =~= match a {
        Action::RecordCrash { index, .. } => seq![index as int],
        _ => Seq::<int>::empty(),
    });
}

proof fn lemma_plan_step(
    keys: Seq<Seq<char>>,
    force: bool,
    recorded: Set<Seq<char>>,
    crashing: Set<int>,
    status: String,
    i: int,
)
    requires
        0 <= i < keys.len() <= usize::MAX,
    ensures
        ({
            let p = plan(keys, force, recorded, crashing, status, i);
            let rest = plan(keys, force, recorded.insert(keys[i]), crashing, status, i + 1);
            let seg = segment(keys, force, recorded, crashing, status, i);
            &&& p.1 == rest.1
            &&& attempted(p.0) == attempted(seg) + attempted(rest.0)
            &&& crash_recorded(p.0) == crash_recorded(seg) + crash_recorded(rest.0)
        }),
{
    let rest = plan(keys, force, recorded.insert(keys[i]), crashing, status, i + 1);
    let seg = segment(keys, force, recorded, crashing, status, i);
    lemma_attempted_concat(seg, rest.0);
    lemma_segment(keys, force, recorded, crashing, status, i);
}

proof fn lemma_plan_store(
    keys: Seq<Seq<char>>,
    force: bool,
    recorded: Set<Seq<char>>,
    crashing: Set<int>,
    status: String,
    i: int,
)
    requires
        0 <= i <= keys.len() <= usize::MAX,
    ensures
        forall|x: Seq<char>|
            #[trigger] plan(keys, force, recorded, crashing, status, i).1.contains(x) <==> (
            recorded.contains(x) || exists|j: int| i <= j < keys.len() && keys[j] == x),
    decreases keys.len() - i,
{
    if i < keys.len() {
        let after = recorded.insert(keys[i]);
        lemma_plan_store(keys, force, after, crashing, status, i + 1);
        lemma_plan_step(keys, force, recorded, crashing, status, i);
        lemma_segment(keys, force, recorded, crashing, status, i);
        assert forall|x: Seq<char>|
            #[trigger] plan(keys, force, recorded, crashing, status, i).1.contains(x) <==> (
            recorded.contains(x) || exists|j: int| i <= j < keys.len() && keys[j] == x) by {
            if exists|j: int| i <= j < keys.len() && keys[j] == x {
                let j = choose|j: int| i <= j < keys.len() && keys[j] == x;
                if j > i {
                    assert(i + 1 <= j < keys.len() && keys[j] == x);
                }
            }
            if exists|j: int| i + 1 <= j < keys.len() && keys[j] == x {
                let j = choose|j: int| i + 1 <= j < keys.len() && keys[j] == x;
                assert(i <= j < keys.len() && keys[j] == x);
            }
        }
    }
}

proof fn lemma_plan_no_work(
    keys: Seq<Seq<char>>,
    recorded: Set<Seq<char>>,
    crashing: Set<int>,
    status: String,
    i: int,
)
    requires
        0 <= i <= keys.len() <= usize::MAX,
        forall|j: int| i <= j < keys.len() ==> recorded.contains(#[trigger] keys[j]),
    ensures
        attempted(plan(keys, false, recorded, crashing, status, i).0) == Seq::<int>::empty(),
        crash_recorded(plan(keys, false, recorded, crashing, status, i).0) == Seq::<int>::empty(),
        plan(keys, false, recorded, crashing, status, i).1 == recorded,
    decreases keys.len() - i,
{
    if i < keys.len() {
        assert(recorded.insert(keys[i]) =~= recorded);
        lemma_plan_no_work(keys, recorded, crashing, status, i + 1);
        lemma_plan_step(keys, false, recorded, crashing, status, i);
        lemma_segment(keys, false, recorded, crashing, status, i);
        assert(Seq::<int>::empty() + Seq::<int>::empty() =~= Seq::<int>::empty());
    } else {
        assert(attempted(Seq::<Action>::empty()) == Seq::<int>::empty());
        assert(crash_recorded(Seq::<Action>::empty()) == Seq::<int>::empty());
    }
}

proof fn lemma_plan_resume(
    keys: Seq<Seq<char>>,
    recorded: Set<Seq<char>>,
    crashing: Set<int>,
    status: String,
    done: int,
    i: int,
)
    requires
        0 <= i <= keys.len() <= usize::MAX,
        0 <= done <= keys.len(),
        forall|j: int, l: int| 0 <= j < l < keys.len() ==> keys[j] != keys[l],
        forall|j: int| i <= j < keys.len() ==> (recorded.contains(#[trigger] keys[j]) <==> j < done),
    ensures
        attempted(plan(keys, false, recorded, crashing, status, i).0) == if i < done {
            positions(done, keys.len() as int)
        } else {
            positions(i, keys.len() as int)
        },
    decreases keys.len() - i,
{
    let n = keys.len() as int;
    if i < n {
        let after = recorded.insert(keys[i]);
        assert forall|j: int| i + 1 <= j < n implies (after.contains(#[trigger] keys[j]) <==> j
            < done) by {
            assert(keys[i] != keys[j]);
        }
        lemma_plan_resume(keys, after, crashing, status, done, i + 1);
        lemma_plan_step(keys, false, recorded, crashing, status, i);
        lemma_segment(keys, false, recorded, crashing, status, i);
        if i < done {
            assert(Seq::<int>::empty() + positions(done, n) =~= positions(done, n));
        } else {
            assert(seq![i] + positions(i + 1, n) =~= positions(i, n));
        }
    } else {
        assert(attempted(Seq::<Action>::empty()) == Seq::<int>::empty());
        assert(positions(i, n) =~= Seq::<int>::empty());
        if i < done {
            assert(positions(done, n) =~= Seq::<int>::empty());
        }
    }
}

proof fn lemma_plan_force(
    keys: Seq<Seq<char>>,
    recorded: Set<Seq<char>>,
    crashing: Set<int>,
    status: String,
    i: int,
)
    requires
        0 <= i <= keys.len() <= usize::MAX,
    ensures
        attempted(plan(keys, true, recorded, crashing, status, i).0) == positions(
            i,
            keys.len() as int,
        ),
    decreases keys.len() - i,
{
    let n = keys.len() as int;
    if i < n {
        lemma_plan_force(keys, recorded.insert(keys[i]), crashing, status, i + 1);
        lemma_plan_step(keys, true, recorded, crashing, status, i);
        lemma_segment(keys, true, recorded, crashing, status, i);
        assert(seq![i] + positions(i + 1, n) =~= positions(i, n));
    } else {
        assert(attempted(Seq::<Action>::empty()) == Seq::<int>::empty());
        assert(positions(i, n) =~= Seq::<int>::empty());
    }
}

proof fn lemma_plan_crash(
    keys: Seq<Seq<char>>,
    force: bool,
    recorded: Set<Seq<char>>,
    crashing: Set<int>,
    status: String,
    i: int,
)
    requires
        0 <= i <= keys.len() <= usize::MAX,
    ensures
        ({
            let p = plan(keys, force, recorded, crashing, status, i);
            let q = plan(keys, force, recorded, Set::empty(), status, i);
            &&& attempted(p.0) == attempted(q.0)
            &&& p.1 == q.1
            &&& crash_recorded(p.0) == among(attempted(p.0), crashing)
        }),
    decreases keys.len() - i,
{
    if i < keys.len() {
        let after = recorded.insert(keys[i]);
        lemma_plan_crash(keys, force, after, crashing, status, i + 1);
        lemma_plan_step(keys, force, recorded, crashing, status, i);
        lemma_segment(keys, force, recorded, crashing, status, i);
        lemma_plan_step(keys, force, recorded, Set::empty(), status, i);
        lemma_segment(keys, force, recorded, Set::empty(), status, i);
        let seg = segment(keys, force, recorded, crashing, status, i);
        let rest = plan(keys, force, after, crashing, status, i + 1);
        lemma_among_concat(attempted(seg), attempted(rest.0), crashing);
        let e = Seq::<int>::empty();
        assert(among(e, crashing) == e);
        assert(seq![i].drop_first() =~= e);
        assert(seq![i][0] == i);
        assert(among(seq![i], crashing) =~= if crashing.contains(i) {
            seq![i]
        } else {
            e
        });
    } else {
        assert(attempted(Seq::<Action>::empty()) == Seq::<int>::empty());
        assert(crash_recorded(Seq::<Action>::empty()) == Seq::<int>::empty());
        assert(among(Seq::<int>::empty(), crashing) == Seq::<int>::empty());
    }
}

/// After a run, every package of the set has a result record,
/// and the run has recorded nothing but the packages of the set.
pub proof fn law_every_package_recorded(
    keys: Seq<Seq<char>>,
    force: bool,
    recorded: Set<Seq<char>>,
    crashing: Set<int>,
    status: String,
)
    requires
        keys.len() <= usize::MAX,
    ensures
        forall|j: int|
            0 <= j < keys.len() ==> whole_run(keys, force, recorded, crashing, status).1.contains(
                #[trigger] keys[j],
            ),
        forall|x: Seq<char>|
            #[trigger] whole_run(keys, force, recorded, crashing, status).1.contains(x) ==> (
            recorded.contains(x) || exists|j: int| 0 <= j < keys.len() && keys[j] == x),
{
    lemma_run_is_plan(keys, force, recorded, crashing, status, 0, 3 * keys.len() + 1);
    lemma_plan_store(keys, force, recorded, crashing, status, 0);
    let fin = whole_run(keys, force, recorded, crashing, status).1;
    assert forall|j: int| 0 <= j < keys.len() implies fin.contains(#[trigger] keys[j]) by {
        assert(fin.contains(keys[j]) <==> (recorded.contains(keys[j]) || exists|l: int|
            0 <= l < keys.len() && keys[l] == keys[j]));
    }
}

/// A second run with the same packages and without force, on
/// the store that the first run left, attempts nothing, records no crash,
/// and leaves the store as it was.
pub proof fn law_second_run_does_no_work(
    keys: Seq<Seq<char>>,
    force: bool,
    recorded: Set<Seq<char>>,
    crashing: Set<int>,
    crashing_again: Set<int>,
    status: String,
)
    requires
        keys.len() <= usize::MAX,
    ensures
        ({
            let first = whole_run(keys, force, recorded, crashing, status);
            let second = whole_run(keys, false, first.1, crashing_again, status);
            &&& attempted(second.0) == Seq::<int>::empty()
            &&& crash_recorded(second.0) == Seq::<int>::empty()
            &&& second.1 == first.1
        }),
{
    let first = whole_run(keys, force, recorded, crashing, status);
    law_every_package_recorded(keys, force, recorded, crashing, status);
    lemma_run_is_plan(keys, false, first.1, crashing_again, status, 0, 3 * keys.len() + 1);
    lemma_plan_no_work(keys, first.1, crashing_again, status, 0);
}

/// Where the first `done` packages have records and the others
/// do not, a run without force attempts exactly the packages from `done` on,
/// in their order, and none of the first `done`. Packages of the set are
/// taken to be distinct: a repeated one is attempted once, at its first place.
pub proof fn law_resume_after_stop(
    keys: Seq<Seq<char>>,
    done: int,
    recorded: Set<Seq<char>>,
    crashing: Set<int>,
    status: String,
)
    requires
        keys.len() <= usize::MAX,
        0 <= done <= keys.len(),
        forall|j: int, l: int| 0 <= j < l < keys.len() ==> keys[j] != keys[l],
        forall|j: int| 0 <= j < keys.len() ==> (recorded.contains(#[trigger] keys[j]) <==> j < done),
    ensures
        attempted(whole_run(keys, false, recorded, crashing, status).0) == positions(
            done,
            keys.len() as int,
        ),
{
    lemma_run_is_plan(keys, false, recorded, crashing, status, 0, 3 * keys.len() + 1);
    lemma_plan_resume(keys, recorded, crashing, status, done, 0);
    if done == 0 {
        assert(positions(0, keys.len() as int) == positions(done, keys.len() as int));
    }
}

/// A run with force attempts every package of the set, in order,
/// whether or not it had a record.
pub proof fn law_force_attempts_all(
    keys: Seq<Seq<char>>,
    recorded: Set<Seq<char>>,
    crashing: Set<int>,
    status: String,
)
    requires
        keys.len() <= usize::MAX,
    ensures
        attempted(whole_run(keys, true, recorded, crashing, status).0) == positions(
            0,
            keys.len() as int,
        ),
{
    lemma_run_is_plan(keys, true, recorded, crashing, status, 0, 3 * keys.len() + 1);
    lemma_plan_force(keys, recorded, crashing, status, 0);
}

/// Crashes change neither which packages are attempted
/// nor which end with a record; each crashed attempt gets a crash record.
pub proof fn law_crash_is_contained(
    keys: Seq<Seq<char>>,
    force: bool,
    recorded: Set<Seq<char>>,
    crashing: Set<int>,
    status: String,
)
    requires
        keys.len() <= usize::MAX,
    ensures
        ({
            let with = whole_run(keys, force, recorded, crashing, status);
            let without = whole_run(keys, force, recorded, Set::empty(), status);
            &&& attempted(with.0) == attempted(without.0)
            &&& with.1 == without.1
            &&& crash_recorded(with.0) == among(attempted(with.0), crashing)
        }),
{
    lemma_run_is_plan(keys, force, recorded, crashing, status, 0, 3 * keys.len() + 1);
    lemma_run_is_plan(keys, force, recorded, Set::empty(), status, 0, 3 * keys.len() + 1);
    lemma_plan_crash(keys, force, recorded, crashing, status, 0);
}

} // verus!
