//! The descriptor of one remote repository.

use vstd::prelude::*;

verus! {

/// One repository as the forge lists it: the name, which becomes the
/// directory of the local clone, and the URL to clone from.
///
/// The name is taken as it comes. Nothing here checks that it is a single
/// path segment, and two descriptors may share a name.
#[derive(Debug, Clone, PartialEq, Eq)]
pub struct Repo {
    pub name: String,
    pub clone_url: String,
}

/// What a [`Repo`] holds, as sequences of characters.
pub struct RepoView {
    pub name: Seq<char>,
    pub clone_url: Seq<char>,
}

impl View for Repo {
    type V = RepoView;

    open spec fn view(&self) -> RepoView {
        RepoView { name: self.name@, clone_url: self.clone_url@ }
    }
}

impl Repo {
    /// A descriptor of the repository `name` at `clone_url`.
    pub fn new(name: String, clone_url: String) -> (repo: Repo)
        ensures
            repo@ == (RepoView { name: name@, clone_url: clone_url@ }),
    {
        Repo { name, clone_url }
    }

    /// A second descriptor of the same repository.
    pub fn duplicate(&self) -> (repo: Repo)
        ensures
            repo@ == self@,
    {
        Repo { name: self.name.clone(), clone_url: self.clone_url.clone() }
    }
}

} // verus!
