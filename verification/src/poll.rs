//! The polled-update state machine used across the foreign-function
//! boundary, and the plain carriers its calls exchange: a list of
//! downloaded paths, a list of parsed packages, and one progress update.

use vstd::prelude::*;

verus! {

/// The state of a polled update: started, finished with its result still
/// held, or finished with its result already consumed.
#[derive(Debug, Clone, Copy, PartialEq, Eq, Structural)]
pub enum UpdatePoll {
    Running,
    Complete,
    Drained,
}

/// One poll: a running update becomes complete exactly when the worker has
/// signalled; a completed or drained one stays where it is. The returned
/// flag says whether the update is done, and polling after completion is
/// idempotent.
pub fn poll_step(s: UpdatePoll, worker_done: bool) -> (r: (UpdatePoll, bool))
    ensures
        r == (match s {
            UpdatePoll::Running => if worker_done {
                (UpdatePoll::Complete, true)
            } else {
                (UpdatePoll::Running, false)
            },
            UpdatePoll::Complete => (UpdatePoll::Complete, true),
            UpdatePoll::Drained => (UpdatePoll::Drained, true),
        }),
{
    match s {
        UpdatePoll::Running => if worker_done {
            (UpdatePoll::Complete, true)
        } else {
            (UpdatePoll::Running, false)
        },
        UpdatePoll::Complete => (UpdatePoll::Complete, true),
        UpdatePoll::Drained => (UpdatePoll::Drained, true),
    }
}

/// Consuming the result: only a completed update yields it, and doing so
/// drains the state; a running or drained update yields nothing and stays
/// where it is.
pub fn result_step(s: UpdatePoll) -> (r: (UpdatePoll, bool))
    ensures
        r == (match s {
            UpdatePoll::Running => (UpdatePoll::Running, false),
            UpdatePoll::Complete => (UpdatePoll::Drained, true),
            UpdatePoll::Drained => (UpdatePoll::Drained, false),
        }),
{
    match s {
        UpdatePoll::Running => (UpdatePoll::Running, false),
        UpdatePoll::Complete => (UpdatePoll::Drained, true),
        UpdatePoll::Drained => (UpdatePoll::Drained, false),
    }
}

/// The paths an update downloaded, handed across the boundary one at a
/// time from the back.
#[derive(Debug)]
pub struct UpdateReturn(pub Vec<String>);

impl UpdateReturn {
    /// Wraps a list of downloaded paths.
    pub fn from_vec(inner: Vec<String>) -> (r: UpdateReturn)
        ensures
            r.0 == inner,
    {
        UpdateReturn(inner)
    }

    /// The paths, for iteration.
    pub fn iter(&self) -> (r: &Vec<String>)
        ensures
            r == &self.0,
    {
        &self.0
    }

    /// Hands the next path out, consuming it.
    pub fn next_path(&mut self) -> (r: Option<String>)
        ensures
            old(self).0@.len() > 0 ==> r == Some(old(self).0@.last()) && final(self).0@ == old(
                self,
            ).0@.drop_last(),
            old(self).0@.len() == 0 ==> r is None && final(self).0@ == old(self).0@,
    {
        self.0.pop()
    }
}

/// One progress update: either the announced total count, or one
/// completion.
#[derive(Debug, Clone, Copy, PartialEq, Eq, Structural)]
pub struct DownloadUpdate {
    pub is_size: bool,
    pub size: usize,
}

/// Parsed packages handed across the boundary.
pub struct ParsedPacks(pub Vec<crate::pdsc::Package>);

impl ParsedPacks {
    /// The packages, for iteration.
    pub fn iter(&self) -> (r: &Vec<crate::pdsc::Package>)
        ensures
            r == &self.0,
    {
        &self.0
    }
}

} // verus!
