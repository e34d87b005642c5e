//! The scheduler: how connections are dealt out to workers, and what a
//! worker does with the computations it owns.

use crate::coro_util::{Coroutine, Task};
use vstd::arithmetic::div_mod::{
    lemma_add_mod_noop, lemma_mod_add_multiples_vanish, lemma_mod_equivalence, lemma_small_mod,
};
use vstd::prelude::*;

verus! {

/// Number of workers in a pool unless told otherwise.
pub const DEFAULT_WORKERS: usize = 4;

/// Number of computations that a worker owns at most, and capacity of the
/// queue on which it is handed new ones.
pub const DEFAULT_CEILING: usize = 128;

/// Milliseconds that a worker sleeps between two passes over computations
/// that are all suspended.
pub const PASS_INTERVAL_MS: u64 = 1;

/// The worker that gets the `k`-th connection when the first one went to
/// worker `start`.
pub open spec fn assigned(workers: usize, start: usize, k: nat) -> int {
    (start + k) % (workers as int)
}

/// Deals connections out to workers in turn.
#[derive(Clone, Copy, Debug, PartialEq, Eq, Structural)]
pub struct RoundRobin {
    pub workers: usize,
    pub next: usize,
}

impl RoundRobin {
    /// There is a worker, and the next one is among them.
    pub open spec fn wf(self) -> bool {
        self.next < self.workers
    }

    /// A dealer for `workers` workers that starts with the first.
    pub fn new(workers: usize) -> (r: RoundRobin)
        requires
            workers > 0,
        ensures
            r == (RoundRobin { workers, next: 0 }),
            r.wf(),
    {
        RoundRobin { workers, next: 0 }
    }

    /// The worker that owns the next connection, for the whole of its life.
    pub fn assign(&mut self) -> (worker: usize)
        requires
            old(self).wf(),
        ensures
            final(self).wf(),
            worker == old(self).next,
            worker < old(self).workers,
            final(self).workers == old(self).workers,
            final(self).next == assigned(old(self).workers, old(self).next, 1),
    {
        let worker = self.next;
        proof {
            let w = self.workers as int;
            let n = self.next as int;
            if n + 1 == w {
                assert((n + 1) % w == 0) by (nonlinear_arith)
                    requires
                        n + 1 == w,
                        w > 0,
                ;
            } else {
                assert((n + 1) % w == n + 1) by (nonlinear_arith)
                    requires
                        0 <= n + 1 < w,
                ;
            }
        }
        self.next = if self.next + 1 == self.workers {
            0
        } else {
            self.next + 1
        };
        worker
    }
}

/// Dealing goes round: the connection after the `k`-th goes to the worker
/// after that of the `k`-th, and the dealer's next worker after `k` calls of
/// `assign` is the owner of the `k`-th connection.
pub proof fn lemma_assigned_in_turn(workers: usize, start: usize, k: nat)
    requires
        0 < workers,
        start < workers,
    ensures
        0 <= assigned(workers, start, k) < workers,
        assigned(workers, start, 0) == start,
        assigned(workers, start, (k + 1) as nat) == assigned(
            workers,
            assigned(workers, start, k) as usize,
            1,
        ),
{
    let w = workers as int;
    lemma_small_mod(start as nat, workers as nat);
    lemma_add_mod_noop(start + k, 1, w);
    if w != 1 {
        lemma_small_mod(1, workers as nat);
    }
}

/// Connections are dealt out evenly: every connection has one owner, any
/// `workers` connections in a row go to different workers, and the one
/// after them goes to the owner of the first again.
pub proof fn lemma_round_robin_is_even(workers: usize, start: usize, i: nat, j: nat)
    requires
        0 < workers,
        start < workers,
        i < j < i + workers,
    ensures
        0 <= assigned(workers, start, i) < workers,
        assigned(workers, start, i) != assigned(workers, start, j),
        assigned(workers, start, (i + workers) as nat) == assigned(workers, start, i),
{
    let w = workers as int;
    lemma_mod_equivalence(start + j, start + i, w);
    lemma_small_mod((j - i) as nat, workers as nat);
    lemma_mod_add_multiples_vanish(start + i, w);
}

/// What a worker does when a pass is over.
#[derive(Clone, Copy, Debug, PartialEq, Eq, Structural)]
pub enum Wait {
    /// It owns nothing: block until a computation is assigned.
    ForAssignment,
    /// It owns suspended computations: sleep for a moment, then pass again.
    Sleep { millis: u64 },
}

/// The computations that one worker owns. None of them has ended, and there
/// are no more than the ceiling allows.
pub struct Worker<G: Coroutine> {
    slots: Vec<Task<G>>,
    ceiling: usize,
}

impl<G: Coroutine> Worker<G> {
    /// The tasks that the worker owns.
    pub closed spec fn tasks(&self) -> Seq<Task<G>> {
        self.slots@
    }

    /// The most that the worker owns at a time.
    pub closed spec fn ceiling(&self) -> nat {
        self.ceiling as nat
    }

    /// Every owned task is live, and there are no more than the ceiling
    /// allows.
    pub open spec fn wf(&self) -> bool {
        &&& self.tasks().len() <= self.ceiling()
        &&& forall|i: int| 0 <= i < self.tasks().len() ==> (#[trigger] self.tasks()[i]).live()
    }

    /// A worker that owns nothing.
    pub fn new(ceiling: usize) -> (w: Self)
        ensures
            w.wf(),
            w.tasks().len() == 0,
            w.ceiling() == ceiling,
    {
        Worker { slots: Vec::new(), ceiling }
    }

    /// Number of computations that the worker owns.
    pub fn len(&self) -> (n: usize)
        ensures
            n == self.tasks().len(),
    {
        self.slots.len()
    }

    /// Whether the worker may take another computation from its queue.
    pub fn has_room(&self) -> (b: bool)
        ensures
            b == (self.tasks().len() < self.ceiling()),
    {
        self.slots.len() < self.ceiling
    }

    /// Takes ownership of `task`. A task that has ended is dropped. Where
    /// the worker is at its ceiling the task is handed back.
    pub fn accept(&mut self, task: Task<G>) -> (r: Result<(), Task<G>>)
        requires
            old(self).wf(),
        ensures
            final(self).wf(),
            final(self).ceiling() == old(self).ceiling(),
            match r {
                Ok(()) => final(self).tasks() == if task.live() {
                    old(self).tasks().push(task)
                } else {
                    old(self).tasks()
                },
                Err(back) => back == task && task.live() && old(self).tasks().len() >= old(self).ceiling() && final(self).tasks() == old(self).tasks(),
            },
    {
        if !task.is_valid() {
            return Ok(());
        }
        if self.slots.len() >= self.ceiling {
            return Err(task);
        }
        self.slots.push(task);
        Ok(())
    }

    /// Takes in what resuming the task in slot `index` came back with, and
    /// tells the slot at which the pass goes on. A task that has ended is
    /// dropped: the last task takes its slot, its result goes to the end of
    /// `results`, and the pass goes on at the same slot. A task that yielded
    /// stays where it is, and the pass goes on at the next slot.
    pub fn retire(
        &mut self,
        index: usize,
        outcome: Option<G::Return>,
        results: &mut Vec<G::Return>,
    ) -> (next: usize)
        requires
            index < old(self).tasks().len(),
        ensures
            final(self).ceiling() == old(self).ceiling(),
            match outcome {
                Some(result) => {
                    &&& final(self).tasks() == old(self).tasks().update(
                        index as int,
                        old(self).tasks().last(),
                    ).drop_last()
                    &&& final(results)@ == old(results)@.push(result)
                    &&& next == index
                },
                None => {
                    &&& final(self).tasks() == old(self).tasks()
                    &&& final(results)@ == old(results)@
                    &&& next == index + 1
                },
            },
    {
        match outcome {
            Some(result) => {
                self.slots.swap_remove(index);
                results.push(result);
                index
            },
            None => {
                assert(index < self.slots.len());
                index + 1
            },
        }
    }

    /// Resumes every owned computation once and drops those that have
    /// ended. It returns what the ended ones ended with. What a computation
    /// does when it is resumed is its own affair; what the worker does with
    /// each outcome is what `retire` says.
    pub fn run_pass(&mut self) -> (results: Vec<G::Return>)
        requires
            old(self).wf(),
        ensures
            final(self).wf(),
            final(self).ceiling() == old(self).ceiling(),
            final(self).tasks().len() + results.len() == old(self).tasks().len(),
    {
        let mut results: Vec<G::Return> = Vec::new();
        let mut i: usize = 0;
        while i < self.slots.len()
            invariant
                i <= self.slots.len(),
                self.ceiling == old(self).ceiling,
                self.slots.len() + results.len() == old(self).slots.len(),
                self.slots.len() <= self.ceiling,
                forall|j: int| 0 <= j < self.slots.len() ==> (#[trigger] self.slots@[j]).live(),
            decreases self.slots.len() - i,
        {
            let outcome = self.slots[i].resume();
            i = self.retire(i, outcome, &mut results);
        }
        results
    }

    /// What to do when a pass is over: wait for an assignment where nothing
    /// is owned, else sleep for a moment before the next pass.
    pub fn after_pass(&self) -> (wait: Wait)
        ensures
            wait == if self.tasks().len() == 0 {
                Wait::ForAssignment
            } else {
                Wait::Sleep { millis: PASS_INTERVAL_MS }
            },
    {
        if self.slots.len() == 0 {
            Wait::ForAssignment
        } else {
            Wait::Sleep { millis: PASS_INTERVAL_MS }
        }
    }
}

} // verus!
