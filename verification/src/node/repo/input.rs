//! The repositories to follow, as read from a configuration.
use vstd::prelude::*;
use crate::command::Runner;

use crate::command::{accepts_all, CommandOutput, Invocation, RunError};
use crate::common::git::{self, remote_inv, repo_url_outcome};
use crate::error::Error;
use crate::folders::{answered, Folder, Home};
use crate::node::repo::repo::{configured_path, url_check};
use crate::text::opt_view;
use crate::text::{contains, join, to_string};
use crate::BIO_LAB_URL;

verus! {

/// The repositories of a configuration file.
pub struct ReadInputs {
    pub repositories: Vec<ReadInput>,
}

/// One repository of a configuration file.
pub struct ReadInput {
    pub name: String,
    pub branch: String,
    /// Path to repository: defaults to the lab's folder under `software`.
    pub path: Option<String>,
}

/// A repository to follow.
pub struct Input {
    /// For nicer folder and results identifiers.
    pub name: String,
    /// Path to repository.
    pub repo: String,
    /// For checking that path is correct.
    pub url: String,
    /// The branch the commit should belong to.
    pub branch: String,
}

impl Input {
    /// Checks that the repository's remote url contains the expected url.
    pub fn verify_url<
        F: Fn(&Invocation) -> Result<CommandOutput, RunError>,
        E: Fn(&str) -> bool,
    >(&self, runner: &mut Runner<F>, path_exists: &E) -> (res: Result<(), Error>)
        requires
            accepts_all(old(runner).fun()),
            forall|p: &str| call_requires(*path_exists, (p,)),
        ensures
            final(runner).fun() == old(runner).fun(),
            exists|b: bool, o, u: Result<Seq<char>, Error>| #[trigger]
                answered(*path_exists, self.repo@, b) && #[trigger] repo_url_outcome(
                    old(runner).fun(),
                    self.repo@,
                    b,
                    o,
                    u,
                ) && res == url_check(u, self.url@) && final(runner).log() == (if b {
                    old(runner).log().push(remote_inv(self.repo@))
                } else {
                    old(runner).log()
                }),
    {
        let read_url = git::read_repo_url(self.repo.as_str(), runner, path_exists)?;
        if !contains(read_url.as_str(), self.url.as_str()) {
            return Err(Error::UrlMismatch);
        }
        Ok(())
    }

    /// The repository of a configuration entry, with the lab's url.
    pub fn from(read_input: ReadInput, home: &Home) -> (i: Self)
        ensures
            i.name@ == read_input.name@,
            i.repo@ == configured_path(
                opt_view(read_input.path),
                home.path_spec(),
                "computational-biomechanics-lab"@,
            ),
            i.url@ == BIO_LAB_URL@,
            i.branch@ == read_input.branch@,
    {
        let repo = match read_input.path {
            Some(p) => p,
            None => {
                let software = join(home.path_unchecked(), "software");
                join(software.as_str(), "computational-biomechanics-lab")
            },
        };
        Self { name: read_input.name, repo, url: to_string(BIO_LAB_URL), branch: read_input.branch }
    }
}

} // verus!
