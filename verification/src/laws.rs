//! What holds of every run of the pool, whatever the driver does.

use vstd::prelude::*;
use crate::report::count_failures;
use crate::report::count_successes;
use crate::report::failure_line;
use crate::report::lemma_counts_cover;
use crate::report::lemma_counts_push;
use crate::report::report_lines;
use crate::report::success_line;
use crate::schedule::ActionView;
use crate::schedule::PoolModel;
use crate::schedule::Step;
use crate::schedule::lemma_complete_wf;
use crate::schedule::lemma_initial_wf;
use crate::schedule::lemma_step_wf;
use crate::task::CloneTaskView;
use crate::task::OutcomeView;
use crate::task::exit_outcome;

verus! {

/// Whatever a driver does to a valid pool, the pool stays valid, over the
/// same tasks and with the same limit.
pub proof fn law_steps_keep_validity(m: PoolModel, steps: Seq<Step>)
    requires
        m.wf(),
    ensures
        m.run(steps).wf(),
        m.run(steps).tasks == m.tasks,
        m.run(steps).limit == m.limit,
    decreases steps.len(),
{
    if steps.len() > 0 {
        law_steps_keep_validity(m, steps.drop_last());
        lemma_step_wf(m.run(steps.drop_last()), steps.last());
    }
}

/// At every instant of every run, the number of clones in flight is at
/// most the limit: this holds after any sequence of polls and reports,
/// accepted or not, from the start of a pool with a positive limit.
pub proof fn law_concurrency_is_bounded(tasks: Seq<CloneTaskView>, limit: nat, steps: Seq<Step>)
    requires
        limit >= 1,
    ensures
        PoolModel::initial(tasks, limit).run(steps).wf(),
        PoolModel::initial(tasks, limit).run(steps).running.len() <= limit,
{
    lemma_initial_wf(tasks, limit);
    law_steps_keep_validity(PoolModel::initial(tasks, limit), steps);
}

/// When a run is done, every task has completed exactly once and has
/// exactly one outcome: there are as many outcomes as tasks, and the
/// completion order lists every position once.
pub proof fn law_done_means_one_outcome_per_task(m: PoolModel)
    requires
        m.wf(),
        m.is_done(),
    ensures
        m.outcomes.len() == m.tasks.len(),
        m.completed.len() == m.tasks.len(),
        m.completed.no_duplicates(),
        forall|t: nat| t < m.tasks.len() <==> #[trigger] m.completed.contains(t),
{
    assert forall|t: nat| t < m.tasks.len() implies #[trigger] m.completed.contains(t) by {
        assert(m.running.contains(t) || m.completed.contains(t));
    }
}

/// The same for a run from the start: if the pool is done after `steps`,
/// it holds one outcome for each of the tasks it was made with, and the
/// successes and failures among them add up to the number of tasks.
pub proof fn law_finished_run_accounts_for_every_task(
    tasks: Seq<CloneTaskView>,
    limit: nat,
    steps: Seq<Step>,
)
    requires
        limit >= 1,
        PoolModel::initial(tasks, limit).run(steps).is_done(),
    ensures
        PoolModel::initial(tasks, limit).run(steps).outcomes.len() == tasks.len(),
        count_successes(PoolModel::initial(tasks, limit).run(steps).outcomes) + count_failures(
            PoolModel::initial(tasks, limit).run(steps).outcomes,
        ) == tasks.len(),
{
    let m = PoolModel::initial(tasks, limit).run(steps);
    law_concurrency_is_bounded(tasks, limit, steps);
    law_steps_keep_validity(PoolModel::initial(tasks, limit), steps);
    law_done_means_one_outcome_per_task(m);
    lemma_counts_cover(m.outcomes);
}

/// For every positive limit and every list of tasks, the pool completes
/// every task: there is a run of two steps for each task, a start and an
/// end, after which the pool is done and holds exactly one outcome for
/// each task, whatever the exit codes are.
pub proof fn law_pool_completes_every_task(
    tasks: Seq<CloneTaskView>,
    limit: nat,
    exit_code_of: spec_fn(nat) -> Option<i32>,
) -> (steps: Seq<Step>)
    requires
        limit >= 1,
    ensures
        steps.len() == 2 * tasks.len(),
        PoolModel::initial(tasks, limit).run(steps).is_done(),
        PoolModel::initial(tasks, limit).run(steps).outcomes.len() == tasks.len(),
{
    lemma_initial_wf(tasks, limit);
    law_every_run_can_finish(PoolModel::initial(tasks, limit), exit_code_of)
}

/// A run that has not been aborted never gets stuck, and it ends: while
/// it is not done, either the next task can start or a task is running
/// whose end can be reported; each start and each accepted completion
/// brings the run one step closer; and it is done exactly when no step is
/// left. The pool waits only when every slot is taken or no task is left
/// to start.
pub proof fn law_progress(m: PoolModel)
    requires
        m.wf(),
        !m.aborted(),
    ensures
        m.remaining() >= 0,
        m.is_done() <==> m.remaining() == 0,
        !m.is_done() ==> m.can_start() || m.running.len() > 0,
        m.can_start() ==> m.poll().remaining() == m.remaining() - 1,
        forall|idx: nat, exit_code: Option<i32>|
            m.accepts(idx) ==> #[trigger] m.complete(idx, exit_code).remaining() == m.remaining()
                - 1,
        m.next_action() is Wait ==> m.running.len() == m.limit || m.started == m.tasks.len(),
        m.next_action() is Done <==> m.is_done(),
{
}

/// Taking a step and then more steps is taking them all in one run.
pub proof fn lemma_run_after_step(m: PoolModel, step: Step, rest: Seq<Step>)
    ensures
        m.run(seq![step] + rest) == m.step(step).run(rest),
    decreases rest.len(),
{
    let all = seq![step] + rest;
    if rest.len() == 0 {
        assert(all.drop_last() =~= Seq::<Step>::empty());
        assert(m.run(all.drop_last()) == m);
    } else {
        assert(all.drop_last() =~= seq![step] + rest.drop_last());
        assert(all.last() == rest.last());
        lemma_run_after_step(m, step, rest.drop_last());
    }
}

/// Every run that goes on can be brought to its end, whatever the exit
/// codes of its tasks: from any valid state that is not aborted there are
/// steps, as many as the state has left, after which the pool is done.
/// The steps returned start a task whenever one may start and otherwise
/// end the task that has run longest, with the exit code that
/// `exit_code_of` gives for it.
pub proof fn law_every_run_can_finish(m: PoolModel, exit_code_of: spec_fn(nat) -> Option<i32>) -> (steps:
    Seq<Step>)
    requires
        m.wf(),
        !m.aborted(),
    ensures
        steps.len() == m.remaining(),
        m.run(steps).wf(),
        m.run(steps).is_done(),
        m.run(steps).tasks == m.tasks,
        m.run(steps).outcomes.len() == m.tasks.len(),
    decreases m.remaining(),
{
    law_progress(m);
    if m.is_done() {
        let steps = Seq::<Step>::empty();
        law_done_means_one_outcome_per_task(m);
        steps
    } else {
        let step = if m.can_start() {
            Step::Poll
        } else {
            Step::Complete { idx: m.running[0], exit_code: exit_code_of(m.running[0]) }
        };
        if !m.can_start() {
            assert(m.running.contains(m.running[0]));
            lemma_complete_wf(m, m.running[0], exit_code_of(m.running[0]));
        }
        let next = m.step(step);
        lemma_step_wf(m, step);
        assert(next.remaining() == m.remaining() - 1);
        let rest = law_every_run_can_finish(next, exit_code_of);
        lemma_run_after_step(m, step, rest);
        seq![step] + rest
    }
}

/// Each recorded outcome is that of its own task and of that task's own
/// exit status: a success if the client exited with code zero, otherwise
/// the failure that names the task's repository. No other task's end has
/// a part in it.
pub proof fn law_outcomes_are_independent(m: PoolModel, k: int)
    requires
        m.wf(),
        0 <= k < m.outcomes.len(),
    ensures
        m.completed[k] < m.tasks.len(),
        m.outcomes[k] == exit_outcome(m.tasks[m.completed[k] as int], m.exit_codes[k]),
        m.outcomes[k] is Success <==> m.exit_codes[k] == Some(0i32),
        m.outcomes[k] is Failure ==> m.outcomes[k] == (OutcomeView::Failure {
            repo_name: m.tasks[m.completed[k] as int].repo.name,
        }),
{
    assert(m.completed.contains(m.completed[k]));
}

/// Recording the end of one task leaves the outcomes recorded before it
/// as they were, and adds the outcome of that task alone.
pub proof fn law_completion_adds_one_outcome(m: PoolModel, idx: nat, exit_code: Option<i32>)
    requires
        m.wf(),
        m.accepts(idx),
    ensures
        m.complete(idx, exit_code).outcomes == m.outcomes.push(
            exit_outcome(m.tasks[idx as int], exit_code),
        ),
        m.complete(idx, exit_code).outcomes.len() == m.outcomes.len() + 1,
        forall|k: int|
            0 <= k < m.outcomes.len() ==> #[trigger] m.complete(idx, exit_code).outcomes[k]
                == m.outcomes[k],
{
}

/// The order in which two running tasks end does not matter to the rest:
/// either way the same tasks keep running and the tally is the same.
pub proof fn law_completions_commute(
    m: PoolModel,
    first: nat,
    first_code: Option<i32>,
    second: nat,
    second_code: Option<i32>,
)
    requires
        m.wf(),
        m.accepts(first),
        m.accepts(second),
        first != second,
    ensures
        m.complete(first, first_code).accepts(second),
        m.complete(second, second_code).accepts(first),
        forall|t: nat|
            m.complete(first, first_code).complete(second, second_code).running.contains(t)
                <==> m.complete(second, second_code).complete(first, first_code).running.contains(
                t,
            ),
        count_successes(m.complete(first, first_code).complete(second, second_code).outcomes)
            == count_successes(
            m.complete(second, second_code).complete(first, first_code).outcomes,
        ),
        count_failures(m.complete(first, first_code).complete(second, second_code).outcomes)
            == count_failures(
            m.complete(second, second_code).complete(first, first_code).outcomes,
        ),
{
    let a = m.complete(first, first_code);
    let b = m.complete(second, second_code);
    lemma_complete_wf(m, first, first_code);
    lemma_complete_wf(m, second, second_code);
    assert(a.running.contains(second));
    assert(b.running.contains(first));
    lemma_complete_wf(a, second, second_code);
    lemma_complete_wf(b, first, first_code);
    let ab = a.complete(second, second_code);
    let ba = b.complete(first, first_code);
    assert forall|t: nat| ab.running.contains(t) <==> ba.running.contains(t) by {
        assert(ab.running.contains(t) <==> a.running.contains(t) && t != second);
        assert(ba.running.contains(t) <==> b.running.contains(t) && t != first);
        assert(a.running.contains(t) <==> m.running.contains(t) && t != first);
        assert(b.running.contains(t) <==> m.running.contains(t) && t != second);
    }
    let first_outcome = exit_outcome(m.tasks[first as int], first_code);
    let second_outcome = exit_outcome(m.tasks[second as int], second_code);
    lemma_counts_push(m.outcomes, first_outcome);
    lemma_counts_push(m.outcomes, second_outcome);
    lemma_counts_push(m.outcomes.push(first_outcome), second_outcome);
    lemma_counts_push(m.outcomes.push(second_outcome), first_outcome);
}

/// The line about failures is part of the report if and only if at least
/// one clone failed; the line about successes always is.
pub proof fn law_failures_reported_iff_any(successes: nat, failures: nat)
    ensures
        report_lines(successes, failures)[0] == success_line(successes),
        report_lines(successes, failures).contains(failure_line(failures)) <==> failures > 0,
        report_lines(successes, failures).len() == if failures > 0 {
            2nat
        } else {
            1nat
        },
{
    let lines = report_lines(successes, failures);
    reveal_strlit("Cloned ");
    reveal_strlit("Failed to clone ");
    assert(success_line(successes)[0] == 'C');
    assert(failure_line(failures)[0] == 'F');
    if failures > 0 {
        assert(lines[1] == failure_line(failures));
    }
}

/// Every outcome is counted, and counted once: the successes and the
/// failures among any outcomes add up to their number.
pub proof fn law_tally_covers_every_outcome(outcomes: Seq<OutcomeView>)
    ensures
        count_successes(outcomes) + count_failures(outcomes) == outcomes.len(),
{
    lemma_counts_cover(outcomes);
}

/// A run without tasks is done before anything starts: no success, no
/// failure, and a report of one line.
pub proof fn law_empty_run(limit: nat)
    requires
        limit >= 1,
    ensures
        PoolModel::initial(Seq::empty(), limit).is_done(),
        PoolModel::initial(Seq::empty(), limit).next_action() is Done,
        count_successes(PoolModel::initial(Seq::empty(), limit).outcomes) == 0,
        count_failures(PoolModel::initial(Seq::empty(), limit).outcomes) == 0,
        report_lines(0, 0) == seq![success_line(0)],
{
}

/// With a limit no smaller than the number of tasks nothing ever waits
/// for a slot: as long as a task is left and the run goes on, the next
/// poll starts it.
pub proof fn law_ample_limit_never_queues(m: PoolModel)
    requires
        m.wf(),
        !m.aborted(),
        m.limit >= m.tasks.len(),
        m.started < m.tasks.len(),
    ensures
        m.can_start(),
        m.next_action() == ActionView::Start(m.started),
{
}

} // verus!
