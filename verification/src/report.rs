//! The tally of a run and the lines that report it.

use vstd::prelude::*;
use vstd::string::StringExecFns;
use crate::task::Outcome;
use crate::task::OutcomeView;
use crate::task::outcomes_view;
use crate::text::decimal_digits;
use crate::text::decimal_string;
use crate::text::strings_view;

verus! {

/// How many of `outcomes` are successes.
pub open spec fn count_successes(outcomes: Seq<OutcomeView>) -> nat
    decreases outcomes.len(),
{
    if outcomes.len() == 0 {
        0
    } else {
        count_successes(outcomes.drop_last()) + if outcomes.last() is Success {
            1nat
        } else {
            0nat
        }
    }
}

/// How many of `outcomes` are failures.
pub open spec fn count_failures(outcomes: Seq<OutcomeView>) -> nat
    decreases outcomes.len(),
{
    if outcomes.len() == 0 {
        0
    } else {
        count_failures(outcomes.drop_last()) + if outcomes.last() is Failure {
            1nat
        } else {
            0nat
        }
    }
}

/// The line that reports how many clones succeeded.
pub open spec fn success_line(count: nat) -> Seq<char> {
    "Cloned "@ + decimal_digits(count) + " repositories successfully"@
}

/// The line that reports how many clones failed.
pub open spec fn failure_line(count: nat) -> Seq<char> {
    "Failed to clone "@ + decimal_digits(count) + " repositories"@
}

/// The lines that close a run: the successes always, the failures only
/// when there are any.
pub open spec fn report_lines(successes: nat, failures: nat) -> Seq<Seq<char>> {
    if failures > 0 {
        seq![success_line(successes), failure_line(failures)]
    } else {
        seq![success_line(successes)]
    }
}

/// The line that opens a run.
pub open spec fn start_line(target: Seq<char>, concurrency: nat) -> Seq<char> {
    "Downloading all repositories for "@ + target + " with "@ + decimal_digits(concurrency)
        + " threads"@
}

/// Every outcome is counted once: as a success or as a failure.
pub proof fn lemma_counts_cover(outcomes: Seq<OutcomeView>)
    ensures
        count_successes(outcomes) + count_failures(outcomes) == outcomes.len(),
    decreases outcomes.len(),
{
    if outcomes.len() > 0 {
        lemma_counts_cover(outcomes.drop_last());
    }
}

/// Counting goes outcome by outcome: one more outcome adds one to the
/// count of its kind and leaves the other count as it was.
pub proof fn lemma_counts_push(outcomes: Seq<OutcomeView>, outcome: OutcomeView)
    ensures
        count_successes(outcomes.push(outcome)) == count_successes(outcomes) + if outcome
            is Success {
            1nat
        } else {
            0nat
        },
        count_failures(outcomes.push(outcome)) == count_failures(outcomes) + if outcome
            is Failure {
            1nat
        } else {
            0nat
        },
{
    assert(outcomes.push(outcome).drop_last() =~= outcomes);
}

/// The counts of a finished run.
#[derive(Debug, Clone, Copy, PartialEq, Eq, Structural)]
pub struct Tally {
    pub success_count: usize,
    pub failure_count: usize,
}

impl Tally {
    /// The lines that close the run.
    pub fn report(&self) -> (lines: Vec<String>)
        ensures
            strings_view(lines@) == report_lines(
                self.success_count as nat,
                self.failure_count as nat,
            ),
    {
        let mut lines: Vec<String> = Vec::new();
        let mut cloned = String::from_str("Cloned ");
        cloned.append(decimal_string(self.success_count).as_str());
        cloned.append(" repositories successfully");
        lines.push(cloned);
        if self.failure_count > 0 {
            let mut failed = String::from_str("Failed to clone ");
            failed.append(decimal_string(self.failure_count).as_str());
            failed.append(" repositories");
            lines.push(failed);
        }
        assert(strings_view(lines@) =~= report_lines(
            self.success_count as nat,
            self.failure_count as nat,
        ));
        lines
    }
}

/// Counts the successes and the failures among `outcomes`.
pub fn tally(outcomes: &Vec<Outcome>) -> (counts: Tally)
    ensures
        counts.success_count == count_successes(outcomes_view(outcomes@)),
        counts.failure_count == count_failures(outcomes_view(outcomes@)),
        counts.success_count + counts.failure_count == outcomes.len(),
{
    let ghost all = outcomes_view(outcomes@);
    let mut success_count: usize = 0;
    let mut failure_count: usize = 0;
    let mut i: usize = 0;
    while i < outcomes.len()
        invariant
            i <= outcomes.len(),
            all == outcomes_view(outcomes@),
            success_count == count_successes(all.take(i as int)),
            failure_count == count_failures(all.take(i as int)),
            success_count + failure_count == i,
        decreases outcomes.len() - i,
    {
        proof {
            assert(all.take(i + 1) =~= all.take(i as int).push(all[i as int]));
            lemma_counts_push(all.take(i as int), all[i as int]);
        }
        if outcomes[i].is_success() {
            success_count = success_count + 1;
        } else {
            failure_count = failure_count + 1;
        }
        i = i + 1;
    }
    proof {
        assert(all.take(i as int) =~= all);
    }
    Tally { success_count, failure_count }
}

/// The line that opens a run on `target` with `concurrency` workers.
pub fn announce(target: &str, concurrency: usize) -> (line: String)
    ensures
        line@ == start_line(target@, concurrency as nat),
{
    let mut line = String::from_str("Downloading all repositories for ");
    line.append(target);
    line.append(" with ");
    line.append(decimal_string(concurrency).as_str());
    line.append(" threads");
    line
}

} // verus!
