//! A commit of a repository, to be checked out.
use vstd::prelude::*;
use crate::command::Runner;

use crate::command::{accepts_all, InvocationView, ran, stdout_result, trimmed_result, CommandOutput, Invocation, RunError};
use crate::common::git::{self, checkout_inv, current_commit_inv, discard, merged_inv};
use crate::error::Error;

verus! {

/// What checking out `hash` in the repository at `repo` gave: git must
/// list branches containing the commit; then the checked out commit is
/// read; unless it is `hash`, `hash` is checked out and the checked out
/// commit read again, which must now be `hash`. `res` is the first failure,
/// or `Ok`. The runner's log goes from `before` to `after`: each of these
/// commands in turn, up to the first failure, and no checkout where the
/// commit was already checked out.
pub open spec fn checkout_outcome<F: Fn(&Invocation) -> Result<CommandOutput, RunError>>(
    runner: F,
    repo: Seq<char>,
    hash: Seq<char>,
    before: Seq<InvocationView>,
    after: Seq<InvocationView>,
    res: Result<(), Error>,
) -> bool {
    let l1 = before.push(merged_inv(repo, hash));
    let l2 = l1.push(current_commit_inv(repo));
    let l3 = l2.push(checkout_inv(repo, hash));
    let l4 = l3.push(current_commit_inv(repo));
    exists|o1| #[trigger]
        ran(runner, merged_inv(repo, hash), o1) && match stdout_result(o1) {
            Err(e) => res == Err::<(), Error>(e) && after == l1,
            Ok(_) => exists|o2| #[trigger]
                ran(runner, current_commit_inv(repo), o2) && match trimmed_result(o2) {
                    Err(e) => res == Err::<(), Error>(e) && after == l2,
                    Ok(h) => if h == hash {
                        res == Ok::<(), Error>(()) && after == l2
                    } else {
                        exists|o3| #[trigger]
                            ran(runner, checkout_inv(repo, hash), o3) && match discard(stdout_result(o3)) {
                                Err(e) => res == Err::<(), Error>(e) && after == l3,
                                Ok(_) => after == l4 && exists|o4| #[trigger]
                                    ran(runner, current_commit_inv(repo), o4) && match trimmed_result(o4) {
                                        Err(e) => res == Err::<(), Error>(e),
                                        Ok(now) => res == if now == hash {
                                            Ok::<(), Error>(())
                                        } else {
                                            Err::<(), Error>(Error::CheckoutFailed)
                                        },
                                    },
                            }
                    },
                },
        }
}

/// A commit of a repository, by reference.
pub struct Source<'a> {
    /// The repository's path.
    pub repo: &'a str,
    /// The branch the commit should belong to.
    pub branch: &'a str,
    /// The commit we are checking out.
    pub hash: &'a str,
    /// The url of the repo.
    pub url: &'a str,
}

impl<'a> Source<'a> {
    /// Checks out the commit unless the repository is already there;
    /// succeeds only once git confirms that the commit is checked out.
    pub fn checkout<F: Fn(&Invocation) -> Result<CommandOutput, RunError>>(&self, runner: &mut Runner<F>) -> (res:
        Result<(), Error>)
        requires
            accepts_all(old(runner).fun()),
        ensures
            final(runner).fun() == old(runner).fun(),
            checkout_outcome(old(runner).fun(), self.repo@, self.hash@, old(runner).log(), final(runner).log(), res),
    {
        let _merged = git::was_commit_merged_to_branch(self.repo, self.branch, self.hash, runner)?;
        let hash = git::read_current_commit(self.repo, runner)?;
        if !crate::text::str_eq(hash.as_str(), self.hash) {
            git::checkout_commit(self.repo, self.hash, runner)?;
            let now = git::read_current_commit(self.repo, runner)?;
            if !crate::text::str_eq(now.as_str(), self.hash) {
                return Err(Error::CheckoutFailed);
            }
        }
        Ok(())
    }

    /// The repository's path.
    pub fn path(&self) -> (p: Result<&'a str, Error>)
        ensures
            p matches Ok(s) && s@ == self.repo@,
    {
        Ok(self.repo)
    }
}

} // verus!
