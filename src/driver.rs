//! The run: for each package in turn, check for a record, then either reuse
//! it or attempt the package in isolation and make sure a record exists.
//!
//! The caller performs each action that `pending` names and reports what it
//! saw; the machine decides what comes next.

use vstd::prelude::*;
use crate::outcome::Outcome;
use crate::package::{KrateName, display_of};

verus! {

/// What the run waits for.
#[derive(Clone, Debug)]
pub enum Action {
    /// Tell whether the package at `index` has a result record.
    Check { index: usize },
    /// The package's record stands: announce that it is reused.
    Reuse { index: usize },
    /// Delete the package's old captures and record, then attempt it in
    /// isolation with fresh capture files.
    Attempt { index: usize },
    /// The attempt ended without a record: record a crash.
    RecordCrash { index: usize, status: String },
    /// Every package has been dealt with.
    Finished,
}

/// What the caller saw when it performed the pending action.
#[derive(Clone, Debug)]
pub enum Event {
    /// A `Reuse` or `RecordCrash` action was carried out.
    Done,
    /// The answer to `Check`.
    Checked { present: bool },
    /// The isolated attempt ended; `status` describes how it exited.
    Attempted { record_written: bool, status: String },
}

/// The run over a list of packages.
#[derive(Debug)]
pub struct Driver {
    pub packages: Vec<KrateName>,
    pub force: bool,
    pub pending: Action,
}

/// The first action for the package at `i`, or the end of the run.
pub open spec fn advance(n: nat, i: int) -> Action {
    if 0 <= i < n {
        Action::Check { index: i as usize }
    } else {
        Action::Finished
    }
}

/// Whether a package is attempted: always under `force`, else only where it
/// has no record yet.
pub open spec fn must_attempt(present: bool, force: bool) -> bool {
    force || !present
}

/// The pending action after an event. An event that does not answer the
/// pending action leaves it as it is.
pub open spec fn driver_next(n: nat, force: bool, a: Action, ev: Event) -> Action {
    match (a, ev) {
        (Action::Check { index }, Event::Checked { present }) => if must_attempt(present, force) {
            Action::Attempt { index }
        } else {
            Action::Reuse { index }
        },
        (Action::Reuse { index }, Event::Done) => advance(n, index + 1),
        (Action::Attempt { index }, Event::Attempted { record_written, status }) => if record_written {
            advance(n, index + 1)
        } else {
            Action::RecordCrash { index, status }
        },
        (Action::RecordCrash { index, .. }, Event::Done) => advance(n, index + 1),
        _ => a,
    }
}

pub open spec fn action_index_ok(a: Action, n: nat) -> bool {
    match a {
        Action::Check { index } => index < n,
        Action::Reuse { index } => index < n,
        Action::Attempt { index } => index < n,
        Action::RecordCrash { index, .. } => index < n,
        Action::Finished => true,
    }
}

/// The message of the crash recorded for an attempt that left no record.
pub open spec fn crash_message(status: Seq<char>) -> Seq<char> {
    "no result recorded; exit status: "@ + status
}

/// The outcome recorded for an attempt that ended without a record.
pub fn crash_outcome(status: &str) -> (r: Outcome)
    ensures
        r matches Outcome::Crashed { message } && message@ == crash_message(status@),
{
    let mut message = String::from_str("no result recorded; exit status: ");
    message.append(status);
    Outcome::Crashed { message }
}

impl Driver {
    pub open spec fn wf(&self) -> bool {
        action_index_ok(self.pending, self.packages@.len())
    }

    /// A run over `packages`, in order, waiting for the first check.
    pub fn new(packages: Vec<KrateName>, force: bool) -> (r: Driver)
        ensures
            r.wf(),
            r.packages@ == packages@,
            r.force == force,
            r.pending == advance(packages@.len(), 0),
    {
        let pending = if packages.len() > 0 {
            Action::Check { index: 0 }
        } else {
            Action::Finished
        };
        Driver { packages, force, pending }
    }

    /// The action that the run waits for.
    pub fn pending(&self) -> (r: &Action)
        ensures
            *r == self.pending,
    {
        &self.pending
    }

    /// The package at a position of the run.
    pub fn package(&self, i: usize) -> (r: &KrateName)
        requires
            i < self.packages@.len(),
        ensures
            *r == self.packages@[i as int],
    {
        &self.packages[i]
    }

    /// Takes what the caller saw and moves to the next action.
    pub fn step(&mut self, ev: Event)
        requires
            old(self).wf(),
        ensures
            final(self).wf(),
            final(self).packages == old(self).packages,
            final(self).force == old(self).force,
            final(self).pending == driver_next(
                old(self).packages@.len(),
                old(self).force,
                old(self).pending,
                ev,
            ),
    {
        let n = self.packages.len();
        let mut pending = Action::Finished;
        core::mem::swap(&mut pending, &mut self.pending);
        self.pending = match (pending, ev) {
            (Action::Check { index }, Event::Checked { present }) => {
                if self.force || !present {
                    Action::Attempt { index }
                } else {
                    Action::Reuse { index }
                }
            },
            (Action::Reuse { index }, Event::Done) => {
                if index + 1 < n {
                    Action::Check { index: index + 1 }
                } else {
                    Action::Finished
                }
            },
            (Action::Attempt { index }, Event::Attempted { record_written, status }) => {
                if record_written {
                    if index + 1 < n {
                        Action::Check { index: index + 1 }
                    } else {
                        Action::Finished
                    }
                } else {
                    Action::RecordCrash { index, status }
                }
            },
            (Action::RecordCrash { index, .. }, Event::Done) => {
                if index + 1 < n {
                    Action::Check { index: index + 1 }
                } else {
                    Action::Finished
                }
            },
            (p, _) => p,
        };
    }
}

} // verus!
