//! The bounded pool as a mathematical state machine, and what holds of
//! every state that it can reach.
//!
//! A pool starts its tasks in input order, keeps at most `limit` of them
//! running, and records one outcome for each task as it completes, in the
//! order of completion. The executable pool refines this model step by
//! step, so a fact proved here holds of every run.

use vstd::prelude::*;
use crate::task::CloneTaskView;
use crate::task::OutcomeView;
use crate::task::exit_outcome;

verus! {

/// The state of a pool.
pub struct PoolModel {
    /// The tasks of the run, in input order.
    pub tasks: Seq<CloneTaskView>,
    /// How many tasks may run at once.
    pub limit: nat,
    /// How many tasks have been started: those at positions below this.
    pub started: nat,
    /// The positions of the tasks that run now, in the order they started.
    pub running: Seq<nat>,
    /// The positions of the tasks that have completed, in that order.
    pub completed: Seq<nat>,
    /// The exit status of each completed task, in the order of completion.
    pub exit_codes: Seq<Option<i32>>,
    /// The outcome of each completed task, in the order of completion.
    pub outcomes: Seq<OutcomeView>,
    /// The task whose client could not be spawned, once that has happened.
    pub failed_spawn: Option<nat>,
}

/// What the pool asks of its driver next.
pub enum ActionView {
    /// Spawn the client of the task at this position.
    Start(nat),
    /// Wait until a running task ends.
    Wait,
    /// Every task has completed.
    Done,
    /// The client of the task at this position could not be spawned: stop.
    Abort(nat),
}

/// One thing that a driver may do to a pool.
pub enum Step {
    /// Ask for the next action.
    Poll,
    /// Report that the task at `idx` ended with `exit_code`.
    Complete { idx: nat, exit_code: Option<i32> },
    /// Report that the client of the task at `idx` could not be spawned.
    FailSpawn { idx: nat },
}

impl PoolModel {
    /// The pool before anything has started.
    pub open spec fn initial(tasks: Seq<CloneTaskView>, limit: nat) -> PoolModel {
        PoolModel {
            tasks,
            limit,
            started: 0,
            running: Seq::empty(),
            completed: Seq::empty(),
            exit_codes: Seq::empty(),
            outcomes: Seq::empty(),
            failed_spawn: None,
        }
    }

    /// The invariant of the pool.
    pub open spec fn wf(self) -> bool {
        &&& self.limit >= 1
        &&& self.started <= self.tasks.len()
        &&& self.running.len() <= self.limit
        &&& self.running.len() + self.completed.len() == self.started
        &&& self.running.no_duplicates()
        &&& self.completed.no_duplicates()
        &&& forall|t: nat| #[trigger] self.running.contains(t) ==> t < self.started
        &&& forall|t: nat| #[trigger] self.completed.contains(t) ==> t < self.started
        &&& forall|t: nat| #[trigger] self.running.contains(t) ==> !self.completed.contains(t)
        &&& forall|t: nat|
            t < self.started ==> #[trigger] self.running.contains(t) || self.completed.contains(t)
        &&& self.exit_codes.len() == self.completed.len()
        &&& self.outcomes.len() == self.completed.len()
        &&& forall|k: int|
            0 <= k < self.outcomes.len() ==> #[trigger] self.outcomes[k] == exit_outcome(
                self.tasks[self.completed[k] as int],
                self.exit_codes[k],
            )
        &&& self.failed_spawn matches Some(idx) ==> self.running.contains(idx)
    }

    /// Whether the run has been stopped by a client that could not be spawned.
    pub open spec fn aborted(self) -> bool {
        self.failed_spawn is Some
    }

    /// Whether the next task in input order may start now: the run goes on,
    /// a slot is free, and a task is left.
    pub open spec fn can_start(self) -> bool {
        !self.aborted() && self.running.len() < self.limit && self.started < self.tasks.len()
    }

    /// Whether every task has completed.
    pub open spec fn is_done(self) -> bool {
        !self.aborted() && self.started == self.tasks.len() && self.running.len() == 0
    }

    /// Whether the pool takes a report about the task at `idx`: the run goes
    /// on and that task is running.
    pub open spec fn accepts(self, idx: nat) -> bool {
        !self.aborted() && self.running.contains(idx)
    }

    /// What the pool asks for in this state. It starts a task whenever it
    /// can, so no slot stays free while a task is left.
    pub open spec fn next_action(self) -> ActionView {
        if let Some(idx) = self.failed_spawn {
            ActionView::Abort(idx)
        } else if self.can_start() {
            ActionView::Start(self.started)
        } else if self.running.len() > 0 {
            ActionView::Wait
        } else {
            ActionView::Done
        }
    }

    /// The state after the next task in input order has started.
    pub open spec fn start(self) -> PoolModel {
        PoolModel { started: self.started + 1, running: self.running.push(self.started), ..self }
    }

    /// The state after a poll: the next task has started if it could.
    pub open spec fn poll(self) -> PoolModel {
        if self.can_start() {
            self.start()
        } else {
            self
        }
    }

    /// The state after the running task at `idx` has ended with `exit_code`:
    /// it leaves the running tasks, and its outcome is recorded last.
    pub open spec fn complete(self, idx: nat, exit_code: Option<i32>) -> PoolModel {
        PoolModel {
            running: self.running.remove(self.running.index_of(idx)),
            completed: self.completed.push(idx),
            exit_codes: self.exit_codes.push(exit_code),
            outcomes: self.outcomes.push(exit_outcome(self.tasks[idx as int], exit_code)),
            ..self
        }
    }

    /// The state after the client of the running task at `idx` could not be
    /// spawned.
    pub open spec fn fail_spawn(self, idx: nat) -> PoolModel {
        PoolModel { failed_spawn: Some(idx), ..self }
    }

    /// The state after one step of a driver. A report that the pool does
    /// not accept leaves the state as it is.
    pub open spec fn step(self, step: Step) -> PoolModel {
        match step {
            Step::Poll => self.poll(),
            Step::Complete { idx, exit_code } => if self.accepts(idx) {
                self.complete(idx, exit_code)
            } else {
                self
            },
            Step::FailSpawn { idx } => if self.accepts(idx) {
                self.fail_spawn(idx)
            } else {
                self
            },
        }
    }

    /// The state after a driver has taken `steps`, in order.
    pub open spec fn run(self, steps: Seq<Step>) -> PoolModel
        decreases steps.len(),
    {
        if steps.len() == 0 {
            self
        } else {
            self.run(steps.drop_last()).step(steps.last())
        }
    }

    /// How many steps are left before every task has completed: one start
    /// and one completion for each task that has not had it yet.
    pub open spec fn remaining(self) -> int {
        2 * self.tasks.len() - self.started - self.completed.len()
    }
}

/// Taking one item out of a sequence without duplicates removes exactly
/// that item.
pub proof fn lemma_remove_item(s: Seq<nat>, p: int)
    requires
        s.no_duplicates(),
        0 <= p < s.len(),
    ensures
        s.remove(p).len() == s.len() - 1,
        s.remove(p).no_duplicates(),
        forall|t: nat| #[trigger] s.remove(p).contains(t) <==> s.contains(t) && t != s[p],
{
    let r = s.remove(p);
    s.remove_ensures(p);
    assert forall|t: nat| #[trigger] r.contains(t) <==> s.contains(t) && t != s[p] by {
        if r.contains(t) {
            let i = choose|i: int| 0 <= i < r.len() && r[i] == t;
            if i < p {
                assert(s[i] == t);
            } else {
                assert(s[i + 1] == t);
            }
        }
        if s.contains(t) && t != s[p] {
            let i = choose|i: int| 0 <= i < s.len() && s[i] == t;
            if i < p {
                assert(r[i] == t);
            } else {
                assert(r[i - 1] == t);
            }
        }
    }
}

/// Adding an item to a sequence adds exactly that item.
pub proof fn lemma_push_item(s: Seq<nat>, x: nat)
    ensures
        forall|t: nat| #[trigger] s.push(x).contains(t) <==> s.contains(t) || t == x,
        s.no_duplicates() && !s.contains(x) ==> s.push(x).no_duplicates(),
{
    let r = s.push(x);
    assert forall|t: nat| #[trigger] r.contains(t) <==> s.contains(t) || t == x by {
        if r.contains(t) {
            let i = choose|i: int| 0 <= i < r.len() && r[i] == t;
            if i < s.len() {
                assert(s[i] == t);
            }
        }
        if s.contains(t) {
            let i = choose|i: int| 0 <= i < s.len() && s[i] == t;
            assert(r[i] == t);
        }
        if t == x {
            assert(r[s.len() as int] == t);
        }
    }
    if s.no_duplicates() && !s.contains(x) {
        assert forall|i: int, j: int| 0 <= i < r.len() && 0 <= j < r.len() && i != j implies r[i]
            != r[j] by {
            if i < s.len() {
                assert(s.contains(s[i]));
            }
            if j < s.len() {
                assert(s.contains(s[j]));
            }
        }
    }
}

/// In a sequence without duplicates an item stands at one place only.
pub proof fn lemma_index_of_unique(s: Seq<nat>, p: int)
    requires
        s.no_duplicates(),
        0 <= p < s.len(),
    ensures
        s.index_of(s[p]) == p,
{
    let q = s.index_of(s[p]);
    assert(0 <= q < s.len() && s[q] == s[p]);
}

/// A pool with a positive limit begins in a valid state.
pub proof fn lemma_initial_wf(tasks: Seq<CloneTaskView>, limit: nat)
    requires
        limit >= 1,
    ensures
        PoolModel::initial(tasks, limit).wf(),
        PoolModel::initial(tasks, limit).remaining() == 2 * tasks.len(),
{
}

/// Starting a task keeps the state valid, and so keeps the number of
/// running tasks within the limit.
pub proof fn lemma_start_wf(m: PoolModel)
    requires
        m.wf(),
        m.can_start(),
    ensures
        m.start().wf(),
        m.start().running.len() == m.running.len() + 1,
        m.start().remaining() == m.remaining() - 1,
{
    let n = m.start();
    lemma_push_item(m.running, m.started);
    assert(!m.running.contains(m.started));
    assert(!m.completed.contains(m.started));
    assert forall|t: nat| t < n.started implies #[trigger] n.running.contains(t)
        || n.completed.contains(t) by {
        if t < m.started {
            assert(m.running.contains(t) || m.completed.contains(t));
        }
    }
}

/// Recording the end of a running task keeps the state valid, frees its
/// slot, and adds the outcome of that task and no other.
pub proof fn lemma_complete_wf(m: PoolModel, idx: nat, exit_code: Option<i32>)
    requires
        m.wf(),
        m.accepts(idx),
    ensures
        m.complete(idx, exit_code).wf(),
        m.complete(idx, exit_code).running.len() == m.running.len() - 1,
        m.complete(idx, exit_code).remaining() == m.remaining() - 1,
        forall|t: nat|
            #[trigger] m.complete(idx, exit_code).running.contains(t) <==> m.running.contains(t)
                && t != idx,
{
    let n = m.complete(idx, exit_code);
    let p = m.running.index_of(idx);
    assert(0 <= p < m.running.len() && m.running[p] == idx);
    lemma_remove_item(m.running, p);
    lemma_push_item(m.completed, idx);
    assert(!m.completed.contains(idx));
    assert(idx < m.started);
    assert forall|t: nat| t < n.started implies #[trigger] n.running.contains(t)
        || n.completed.contains(t) by {
        assert(m.running.contains(t) || m.completed.contains(t));
    }
    assert forall|k: int| 0 <= k < n.outcomes.len() implies #[trigger] n.outcomes[k]
        == exit_outcome(n.tasks[n.completed[k] as int], n.exit_codes[k]) by {
        if k < m.outcomes.len() {
            assert(n.outcomes[k] == m.outcomes[k]);
            assert(n.completed[k] == m.completed[k]);
            assert(n.exit_codes[k] == m.exit_codes[k]);
        }
    }
}

/// Every step of a driver keeps the state valid.
pub proof fn lemma_step_wf(m: PoolModel, step: Step)
    requires
        m.wf(),
    ensures
        m.step(step).wf(),
        m.step(step).tasks == m.tasks,
        m.step(step).limit == m.limit,
{
    match step {
        Step::Poll => {
            if m.can_start() {
                lemma_start_wf(m);
            }
        },
        Step::Complete { idx, exit_code } => {
            if m.accepts(idx) {
                lemma_complete_wf(m, idx, exit_code);
            }
        },
        Step::FailSpawn { idx } => {},
    }
}

} // verus!
