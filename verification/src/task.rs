//! One clone: the command that performs it and the outcome that its exit
//! status stands for.

use vstd::prelude::*;
use vstd::string::StringExecFns;
use crate::repo::Repo;
use crate::repo::RepoView;
use crate::text::strings_view;

verus! {

/// How one clone ended. A clone that failed carries the name of its
/// repository; nothing else about a task outlives it.
#[derive(Debug, Clone, PartialEq, Eq)]
pub enum Outcome {
    Success,
    Failure { repo_name: String },
}

/// An [`Outcome`] with the name as a sequence of characters.
pub enum OutcomeView {
    Success,
    Failure { repo_name: Seq<char> },
}

impl View for Outcome {
    type V = OutcomeView;

    open spec fn view(&self) -> OutcomeView {
        match self {
            Outcome::Success => OutcomeView::Success,
            Outcome::Failure { repo_name } => OutcomeView::Failure { repo_name: repo_name@ },
        }
    }
}

/// The outcomes that a sequence holds, in order.
pub open spec fn outcomes_view(outcomes: Seq<Outcome>) -> Seq<OutcomeView> {
    Seq::new(outcomes.len(), |i: int| outcomes[i]@)
}

/// The line written to standard error for a failed clone of `repo_name`.
pub open spec fn failure_diagnostic(repo_name: Seq<char>) -> Seq<char> {
    "Failed to clone "@ + repo_name
}

/// The diagnostic that an outcome calls for: none for a success, one line
/// naming the repository for a failure.
pub open spec fn outcome_diagnostic(outcome: OutcomeView) -> Option<Seq<char>> {
    match outcome {
        OutcomeView::Success => None,
        OutcomeView::Failure { repo_name } => Some(failure_diagnostic(repo_name)),
    }
}

impl Outcome {
    /// Whether the clone succeeded.
    pub fn is_success(&self) -> (b: bool)
        ensures
            b == (self@ is Success),
    {
        match self {
            Outcome::Success => true,
            Outcome::Failure { .. } => false,
        }
    }

    /// The line to write to standard error for this outcome, if any.
    pub fn diagnostic(&self) -> (line: Option<String>)
        ensures
            match outcome_diagnostic(self@) {
                None => line is None,
                Some(text) => line matches Some(l) && l@ == text,
            },
    {
        match self {
            Outcome::Success => None,
            Outcome::Failure { repo_name } => {
                let mut line = String::from_str("Failed to clone ");
                line.append(repo_name.as_str());
                Some(line)
            },
        }
    }
}

/// One unit of work: a repository to clone and whether to fetch its
/// submodules with it.
#[derive(Debug, Clone, PartialEq, Eq)]
pub struct CloneTask {
    pub repo: Repo,
    pub recursive: bool,
}

/// What a [`CloneTask`] holds.
pub struct CloneTaskView {
    pub repo: RepoView,
    pub recursive: bool,
}

impl View for CloneTask {
    type V = CloneTaskView;

    open spec fn view(&self) -> CloneTaskView {
        CloneTaskView { repo: self.repo@, recursive: self.recursive }
    }
}

/// The name of the version-control client that performs a clone.
pub open spec fn clone_program() -> Seq<char> {
    "git"@
}

/// The arguments handed to the client for `task`: the subcommand, the URL,
/// the directory, and the flag for submodules last when it is asked for.
pub open spec fn clone_arguments(task: CloneTaskView) -> Seq<Seq<char>> {
    let plain = seq!["clone"@, task.repo.clone_url, task.repo.name];
    if task.recursive {
        plain.push("--recursive"@)
    } else {
        plain
    }
}

/// Whether an exit status reports success: the process returned, with
/// code zero. `None` stands for a process that ended without a code.
pub open spec fn exit_succeeded(exit_code: Option<i32>) -> bool {
    exit_code == Some(0i32)
}

/// The outcome of `task` when its client ended with `exit_code`.
pub open spec fn exit_outcome(task: CloneTaskView, exit_code: Option<i32>) -> OutcomeView {
    if exit_succeeded(exit_code) {
        OutcomeView::Success
    } else {
        OutcomeView::Failure { repo_name: task.repo.name }
    }
}

impl CloneTask {
    /// The task that clones `repo`.
    pub fn new(repo: Repo, recursive: bool) -> (task: CloneTask)
        ensures
            task@ == (CloneTaskView { repo: repo@, recursive }),
    {
        CloneTask { repo, recursive }
    }

    /// The program to run.
    pub fn program(&self) -> (name: &'static str)
        ensures
            name@ == clone_program(),
    {
        "git"
    }

    /// The arguments to run the program with.
    pub fn arguments(&self) -> (args: Vec<String>)
        ensures
            strings_view(args@) == clone_arguments(self@),
    {
        let mut args: Vec<String> = Vec::new();
        args.push(String::from_str("clone"));
        args.push(self.repo.clone_url.clone());
        args.push(self.repo.name.clone());
        if self.recursive {
            args.push(String::from_str("--recursive"));
        }
        assert(strings_view(args@) =~= clone_arguments(self@));
        args
    }

    /// The outcome that the client's exit status stands for: a success for
    /// code zero, otherwise a failure that names the repository it clones.
    pub fn outcome(&self, exit_code: Option<i32>) -> (outcome: Outcome)
        ensures
            outcome@ == exit_outcome(self@, exit_code),
    {
        let succeeded = match exit_code {
            Some(code) => code == 0,
            None => false,
        };
        if succeeded {
            Outcome::Success
        } else {
            Outcome::Failure { repo_name: self.repo.name.clone() }
        }
    }
}

} // verus!
