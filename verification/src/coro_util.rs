//! Resumable computations and the tasks that wrap them.

use vstd::prelude::*;
use vstd::std_specs::convert::{FromSpec, FromSpecImpl};

verus! {

/// A computation that runs until it gives up control or ends.
///
/// Nothing is said of what `resume` does: a task is correct for every
/// computation that it may wrap.
pub trait Coroutine {
    /// What the computation ends with.
    type Return;

    /// Runs the computation up to its next suspension point. It returns
    /// `None` where the computation gave up control and `Some` with its
    /// result where it has ended. It is not called again after that.
    fn resume(&mut self) -> Option<Self::Return>;
}

/// A computation together with the knowledge of whether it can still make
/// progress.
pub struct Task<G: Coroutine> {
    coro: G,
    valid: bool,
}

impl<G: Coroutine> Task<G> {
    /// Whether the computation has not ended yet.
    pub closed spec fn live(&self) -> bool {
        self.valid
    }

    /// The computation that the task wraps.
    pub closed spec fn coroutine(&self) -> G {
        self.coro
    }

    /// Whether the computation has not ended yet.
    pub fn is_valid(&self) -> (b: bool)
        ensures
            b == self.live(),
    {
        self.valid
    }

    /// Records what a run of the computation came back with, and hands it
    /// on: a task whose computation has ended is live no more.
    pub fn settle(&mut self, outcome: Option<G::Return>) -> (r: Option<G::Return>)
        ensures
            r == outcome,
            final(self).live() == (old(self).live() && outcome is None),
            final(self).coroutine() == old(self).coroutine(),
    {
        if outcome.is_some() {
            self.valid = false;
        }
        outcome
    }

    /// Drives the computation one step forward. A task that has ended is
    /// left alone and gives `None`. A live task runs up to its next
    /// suspension point; it gives `None` where the computation yielded and
    /// its result where it has ended, and is live afterwards exactly in the
    /// first case.
    pub fn resume(&mut self) -> (r: Option<G::Return>)
        ensures
            !old(self).live() ==> r is None && *final(self) == *old(self),
            final(self).live() == (old(self).live() && r is None),
    {
        if !self.valid {
            return None;
        }
        let outcome = self.coro.resume();
        self.settle(outcome)
    }
}

impl<G: Coroutine> From<G> for Task<G> {
    /// A live task for the computation `gen`.
    fn from(gen: G) -> (task: Self) {
        Task { coro: gen, valid: true }
    }
}

impl<G: Coroutine> FromSpecImpl<G> for Task<G> {
    open spec fn obeys_from_spec() -> bool {
        true
    }

    closed spec fn from_spec(gen: G) -> Self {
        Task { coro: gen, valid: true }
    }
}

/// A task made of a computation is live and wraps that computation.
pub proof fn lemma_fresh_task_is_live<G: Coroutine>(gen: G)
    ensures
        <Task<G> as FromSpec<G>>::from_spec(gen).live(),
        <Task<G> as FromSpec<G>>::from_spec(gen).coroutine() == gen,
{
}

} // verus!
