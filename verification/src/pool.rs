//! The bounded pool that a driver runs: it decides which clone starts
//! next and records how each one ended.
//!
//! The pool spawns nothing itself. A driver asks it what to do, spawns
//! the client of the task it is told to start, and reports back how each
//! client ended. However the driver interleaves those calls, no more
//! clones than the limit are in flight, and each task gets one outcome.

use vstd::prelude::*;
use crate::config::PoolConfig;
use crate::repo::Repo;
use crate::repo::RepoView;
use crate::report::Tally;
use crate::report::count_failures;
use crate::report::count_successes;
use crate::report::tally;
use crate::schedule::ActionView;
use crate::schedule::PoolModel;
use crate::schedule::lemma_complete_wf;
use crate::schedule::lemma_index_of_unique;
use crate::schedule::lemma_initial_wf;
use crate::schedule::lemma_start_wf;
use crate::task::CloneTask;
use crate::task::CloneTaskView;
use crate::task::Outcome;
use crate::task::outcomes_view;

verus! {

/// What the pool asks of its driver next.
#[derive(Debug, Clone, Copy, PartialEq, Eq, Structural)]
pub enum Action {
    /// Spawn the client of the task at this position.
    Start(usize),
    /// Wait until a running task ends, then report it.
    Wait,
    /// Every task has completed.
    Done,
    /// The client of the task at this position could not be spawned: stop.
    Abort(usize),
}

impl View for Action {
    type V = ActionView;

    open spec fn view(&self) -> ActionView {
        match self {
            Action::Start(idx) => ActionView::Start(*idx as nat),
            Action::Wait => ActionView::Wait,
            Action::Done => ActionView::Done,
            Action::Abort(idx) => ActionView::Abort(*idx as nat),
        }
    }
}

/// Why the pool refused a call.
#[derive(Debug, Clone, Copy, PartialEq, Eq, Structural)]
pub enum PoolError {
    /// The configured concurrency is zero, so no task could ever start.
    ZeroConcurrency,
    /// The run was stopped by a client that could not be spawned.
    Aborted,
    /// The report is about a task that is not running.
    NotRunning,
}

/// The descriptors that a sequence holds, in order.
pub open spec fn repos_view(repos: Seq<Repo>) -> Seq<RepoView> {
    Seq::new(repos.len(), |i: int| repos[i]@)
}

/// The tasks that a sequence holds, in order.
pub open spec fn tasks_view(tasks: Seq<CloneTask>) -> Seq<CloneTaskView> {
    Seq::new(tasks.len(), |i: int| tasks[i]@)
}

/// The positions that a sequence holds, in order.
pub open spec fn positions_view(positions: Seq<usize>) -> Seq<nat> {
    Seq::new(positions.len(), |i: int| positions[i] as nat)
}

/// One task for each descriptor, in the same order, all with one setting
/// for submodules.
pub open spec fn lift_tasks(repos: Seq<RepoView>, recursive: bool) -> Seq<CloneTaskView> {
    Seq::new(repos.len(), |i: int| CloneTaskView { repo: repos[i], recursive })
}

/// Why the pool in state `m` refuses a report about the task at `idx`, if
/// it does.
pub open spec fn refusal(m: PoolModel, idx: nat) -> Option<PoolError> {
    if m.aborted() {
        Some(PoolError::Aborted)
    } else if !m.running.contains(idx) {
        Some(PoolError::NotRunning)
    } else {
        None
    }
}

/// A pool over the tasks of one run.
pub struct Pool {
    tasks: Vec<CloneTask>,
    limit: usize,
    started: usize,
    running: Vec<usize>,
    completed: Vec<usize>,
    exit_codes: Ghost<Seq<Option<i32>>>,
    outcomes: Vec<Outcome>,
    failed_spawn: Option<usize>,
}

impl View for Pool {
    type V = PoolModel;

    closed spec fn view(&self) -> PoolModel {
        PoolModel {
            tasks: tasks_view(self.tasks@),
            limit: self.limit as nat,
            started: self.started as nat,
            running: positions_view(self.running@),
            completed: positions_view(self.completed@),
            exit_codes: self.exit_codes@,
            outcomes: outcomes_view(self.outcomes@),
            failed_spawn: match self.failed_spawn {
                Some(idx) => Some(idx as nat),
                None => None,
            },
        }
    }
}

/// Where `wanted` stands in `positions`, if it is there.
fn position_of(positions: &Vec<usize>, wanted: usize) -> (found: Option<usize>)
    ensures
        match found {
            Some(p) => p < positions.len() && positions[p as int] == wanted,
            None => !positions_view(positions@).contains(wanted as nat),
        },
{
    let mut p: usize = 0;
    while p < positions.len()
        invariant
            p <= positions.len(),
            forall|i: int| 0 <= i < p ==> positions[i] != wanted,
        decreases positions.len() - p,
    {
        if positions[p] == wanted {
            return Some(p);
        }
        p = p + 1;
    }
    proof {
        let view = positions_view(positions@);
        if view.contains(wanted as nat) {
            let i = choose|i: int| 0 <= i < view.len() && view[i] == wanted as nat;
            assert(positions[i] == wanted);
        }
    }
    None
}

impl Pool {
    /// The invariant of the pool: its state is a valid state of the model.
    pub open spec fn wf(&self) -> bool {
        self@.wf()
    }

    /// A pool over one task for each of `repos`, in their order, with
    /// nothing started. A configuration that lets no task run is refused.
    pub fn new(repos: Vec<Repo>, config: PoolConfig) -> (made: Result<Pool, PoolError>)
        ensures
            match made {
                Ok(pool) => config.valid() && pool.wf() && pool@ == PoolModel::initial(
                    lift_tasks(repos_view(repos@), config.recursive),
                    config.concurrency as nat,
                ),
                Err(e) => !config.valid() && e == PoolError::ZeroConcurrency,
            },
    {
        if config.concurrency == 0 {
            return Err(PoolError::ZeroConcurrency);
        }
        let ghost wanted = lift_tasks(repos_view(repos@), config.recursive);
        let mut tasks: Vec<CloneTask> = Vec::new();
        let mut i: usize = 0;
        while i < repos.len()
            invariant
                i <= repos.len(),
                wanted == lift_tasks(repos_view(repos@), config.recursive),
                tasks_view(tasks@) == wanted.take(i as int),
            decreases repos.len() - i,
        {
            let ghost before = tasks@;
            let task = CloneTask::new(repos[i].duplicate(), config.recursive);
            tasks.push(task);
            i = i + 1;
            proof {
                assert(tasks_view(before).len() == wanted.take(i - 1).len());
                assert forall|k: int| 0 <= k < i implies tasks_view(tasks@)[k] == wanted[k] by {
                    if k < i - 1 {
                        assert(tasks_view(before)[k] == wanted.take(i - 1)[k]);
                    }
                }
                assert(tasks_view(tasks@) =~= wanted.take(i as int));
            }
        }
        assert(wanted.take(i as int) =~= wanted);
        let pool = Pool {
            tasks,
            limit: config.concurrency,
            started: 0,
            running: Vec::new(),
            completed: Vec::new(),
            exit_codes: Ghost(Seq::empty()),
            outcomes: Vec::new(),
            failed_spawn: None,
        };
        proof {
            let initial = PoolModel::initial(wanted, config.concurrency as nat);
            lemma_initial_wf(wanted, config.concurrency as nat);
            assert(pool@.running =~= initial.running);
            assert(pool@.completed =~= initial.completed);
            assert(pool@.outcomes =~= initial.outcomes);
        }
        Ok(pool)
    }

    /// Says what the driver is to do next, and counts the task as running
    /// when the answer is to start it.
    ///
    /// The answer is to start the next task in input order whenever a slot
    /// is free and a task is left; to wait when tasks are running and none
    /// may start; that the run is done when every task has completed; and
    /// to abort once a client could not be spawned.
    pub fn poll(&mut self) -> (action: Action)
        requires
            old(self).wf(),
        ensures
            final(self).wf(),
            action@ == old(self)@.next_action(),
            final(self)@ == old(self)@.poll(),
    {
        match self.failed_spawn {
            Some(idx) => {
                return Action::Abort(idx);
            },
            None => {},
        }
        if self.running.len() < self.limit && self.started < self.tasks.len() {
            let idx = self.started;
            proof {
                lemma_start_wf(self@);
            }
            self.running.push(idx);
            self.started = idx + 1;
            proof {
                assert(self@.running =~= old(self)@.start().running);
            }
            Action::Start(idx)
        } else if self.running.len() > 0 {
            Action::Wait
        } else {
            Action::Done
        }
    }

    /// Records that the client of the running task at `idx` ended with
    /// `exit_code`: the task stops running and its outcome is added after
    /// those recorded before. A report that the pool does not accept
    /// changes nothing.
    pub fn complete(&mut self, idx: usize, exit_code: Option<i32>) -> (done: Result<
        (),
        PoolError,
    >)
        requires
            old(self).wf(),
        ensures
            final(self).wf(),
            match done {
                Ok(_) => old(self)@.accepts(idx as nat) && final(self)@ == old(self)@.complete(
                    idx as nat,
                    exit_code,
                ),
                Err(e) => Some(e) == refusal(old(self)@, idx as nat) && final(self)@ == old(
                    self,
                )@,
            },
    {
        if self.failed_spawn.is_some() {
            return Err(PoolError::Aborted);
        }
        match position_of(&self.running, idx) {
            None => Err(PoolError::NotRunning),
            Some(p) => {
                proof {
                    let running = self@.running;
                    assert(running[p as int] == idx as nat);
                    assert(running.contains(idx as nat));
                    lemma_index_of_unique(running, p as int);
                    lemma_complete_wf(self@, idx as nat, exit_code);
                }
                let outcome = self.tasks[idx].outcome(exit_code);
                self.running.remove(p);
                self.completed.push(idx);
                self.outcomes.push(outcome);
                self.exit_codes = Ghost(self.exit_codes@.push(exit_code));
                proof {
                    let after = old(self)@.complete(idx as nat, exit_code);
                    assert(self@.running =~= after.running);
                    assert(self@.completed =~= after.completed);
                    assert(self@.outcomes =~= after.outcomes);
                }
                Ok(())
            },
        }
    }

    /// Records that the client of the running task at `idx` could not be
    /// spawned, which stops the run: from then on the pool answers every
    /// poll with an abort and refuses every report. A report that the pool
    /// does not accept changes nothing.
    pub fn fail_spawn(&mut self, idx: usize) -> (done: Result<(), PoolError>)
        requires
            old(self).wf(),
        ensures
            final(self).wf(),
            match done {
                Ok(_) => old(self)@.accepts(idx as nat) && final(self)@ == old(self)@.fail_spawn(
                    idx as nat,
                ),
                Err(e) => Some(e) == refusal(old(self)@, idx as nat) && final(self)@ == old(
                    self,
                )@,
            },
    {
        if self.failed_spawn.is_some() {
            return Err(PoolError::Aborted);
        }
        match position_of(&self.running, idx) {
            None => Err(PoolError::NotRunning),
            Some(p) => {
                proof {
                    assert(self@.running[p as int] == idx as nat);
                }
                self.failed_spawn = Some(idx);
                Ok(())
            },
        }
    }

    /// How many tasks may run at once.
    pub fn limit(&self) -> (n: usize)
        ensures
            n == self@.limit,
    {
        self.limit
    }

    /// How many tasks the run has.
    pub fn total(&self) -> (n: usize)
        ensures
            n == self@.tasks.len(),
    {
        self.tasks.len()
    }

    /// How many tasks have been started.
    pub fn started(&self) -> (n: usize)
        ensures
            n == self@.started,
    {
        self.started
    }

    /// How many tasks are running now.
    pub fn running_count(&self) -> (n: usize)
        ensures
            n == self@.running.len(),
            self.wf() ==> n <= self@.limit,
    {
        self.running.len()
    }

    /// How many tasks have completed.
    pub fn completed_count(&self) -> (n: usize)
        ensures
            n == self@.completed.len(),
    {
        self.completed.len()
    }

    /// Whether the task at `idx` is running now.
    pub fn is_running(&self, idx: usize) -> (b: bool)
        ensures
            b == self@.running.contains(idx as nat),
    {
        match position_of(&self.running, idx) {
            Some(p) => {
                proof {
                    assert(self@.running[p as int] == idx as nat);
                }
                true
            },
            None => false,
        }
    }

    /// Whether the run was stopped by a client that could not be spawned.
    pub fn is_aborted(&self) -> (b: bool)
        ensures
            b == self@.aborted(),
    {
        self.failed_spawn.is_some()
    }

    /// Whether every task has completed.
    pub fn is_done(&self) -> (b: bool)
        ensures
            b == self@.is_done(),
    {
        self.failed_spawn.is_none() && self.started == self.tasks.len() && self.running.len() == 0
    }

    /// The task at `idx`, if the run has one there.
    pub fn task(&self, idx: usize) -> (found: Option<&CloneTask>)
        ensures
            match found {
                Some(task) => idx < self@.tasks.len() && task@ == self@.tasks[idx as int],
                None => idx >= self@.tasks.len(),
            },
    {
        if idx < self.tasks.len() {
            Some(&self.tasks[idx])
        } else {
            None
        }
    }

    /// The outcomes recorded so far, in the order of completion.
    pub fn outcomes(&self) -> (recorded: &Vec<Outcome>)
        ensures
            outcomes_view(recorded@) == self@.outcomes,
    {
        &self.outcomes
    }

    /// The positions of the completed tasks, in the order of completion:
    /// the task that each recorded outcome belongs to.
    pub fn completion_order(&self) -> (order: &Vec<usize>)
        ensures
            positions_view(order@) == self@.completed,
    {
        &self.completed
    }

    /// The tally of the run, once every task has completed. Before that,
    /// and after an abort, there is none.
    pub fn finish(&self) -> (counts: Option<Tally>)
        ensures
            match counts {
                Some(t) => self@.is_done() && t.success_count == count_successes(self@.outcomes)
                    && t.failure_count == count_failures(self@.outcomes),
                None => !self@.is_done(),
            },
    {
        if self.is_done() {
            Some(tally(&self.outcomes))
        } else {
            None
        }
    }
}

} // verus!
