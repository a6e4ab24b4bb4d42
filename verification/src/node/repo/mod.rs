//! Repositories, the commits taken from them, and their folder names.
use vstd::prelude::*;
use crate::command::Runner;

pub mod id;
pub mod input;
pub mod params;
pub mod repo;
pub mod source;

pub use id::Id;
pub use input::{Input, ReadInput, ReadInputs};
pub use source::Source;

use crate::command::{accepts_all, CommandOutput, Invocation, RunError};
use crate::common::git::{remote_inv, repo_url_outcome, Commit};
use crate::error::Error;
use crate::folders::answered;
use repo::url_check;

verus! {

/// A repository together with the commit to compile.
pub struct Repository {
    /// For nicer folder and results identifiers.
    pub name: String,
    /// Path to repository.
    pub path: String,
    /// For checking that path is correct.
    pub url: String,
    /// The branch the commit should belong to.
    pub branch: String,
    /// The commit we are checking out.
    pub hash: String,
    /// The date is for ordering results.
    pub date: String,
}

impl Repository {
    /// The repository of `input` at the commit `params`, once the
    /// repository's url was checked.
    pub fn new<
        F: Fn(&Invocation) -> Result<CommandOutput, RunError>,
        E: Fn(&str) -> bool,
    >(input: Input, params: Commit, runner: &mut Runner<F>, path_exists: &E) -> (res: Result<Self, Error>)
        requires
            accepts_all(old(runner).fun()),
            forall|p: &str| call_requires(*path_exists, (p,)),
        ensures
            final(runner).fun() == old(runner).fun(),
            exists|b: bool, o, u: Result<Seq<char>, Error>| #[trigger]
                answered(*path_exists, input.repo@, b) && #[trigger] repo_url_outcome(
                    old(runner).fun(),
                    input.repo@,
                    b,
                    o,
                    u,
                ) && (res is Ok <==> url_check(u, input.url@) is Ok) && (res matches Err(e) ==> url_check(u, input.url@) == Err::<(), Error>(e))
                    && final(runner).log() == (if b {
                    old(runner).log().push(remote_inv(input.repo@))
                } else {
                    old(runner).log()
                }),
            res matches Ok(r) ==> {
                &&& r.name@ == input.name@
                &&& r.path@ == input.repo@
                &&& r.url@ == input.url@
                &&& r.branch@ == input.branch@
                &&& r.hash@ == params.hash@
                &&& r.date@ == params.date@
            },
    {
        input.verify_url(runner, path_exists)?;
        Ok(Self {
            name: input.name,
            path: input.repo,
            url: input.url,
            branch: input.branch,
            hash: params.hash,
            date: params.date,
        })
    }

    /// The repository's commit, by reference.
    pub fn source<'a>(&'a self) -> (s: Source<'a>)
        ensures
            s.branch@ == self.branch@,
            s.hash@ == self.hash@,
            s.url@ == self.url@,
            s.repo@ == self.path@,
    {
        Source {
            branch: self.branch.as_str(),
            hash: self.hash.as_str(),
            url: self.url.as_str(),
            repo: self.path.as_str(),
        }
    }
}

} // verus!
