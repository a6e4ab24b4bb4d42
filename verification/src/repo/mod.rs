//! A repository checked out at one commit, that checks its own state before
//! each use, and the installs compiled from it.
use vstd::prelude::*;
use crate::command::Runner;

pub mod commit;
pub mod git;
pub mod hash;

use crate::command::{
    accepts_all, gave, ran, sres, stdout_result, trimmed_result, Command, CommandOutput, CommandView,
    Invocation, InvocationView, RunError,
};
use crate::common::git::{
    branch_listed, checkout_commit, checkout_inv, commit_merged_to, current_commit_inv,
    discard, merged_inv, read_current_commit, read_repo_url, remote_inv, repo_url_outcome, switch_branch,
    switch_inv,
};
use crate::common::git::{
    commit_views as git_commit_views, date_key, keep_by_last, keep_first_of_each_day,
    Commit as GitCommit, CommitView as GitCommitView,
};
use crate::common::git_hashes::{self, commit_date_outcome, fmt_date_inv, hashes_inv, show_date_inv};
use crate::node::repo::params::{dated, dated_listing_err};
use crate::error::Error;
use crate::folders::{answered, Archive, Folder, ResultsFolder};
use crate::text::{
    byte_prefix, byte_prefix_of, chars_of, contains, contains_spec, join, lines_of, opt_str, path_join, str_eq, string_of_range,
    to_string, views,
};

verus! {

/// The url of opensim-core.
pub const OPENSIM_CORE_URL: &'static str = "https://github.com/opensim-org/opensim-core.git";

/// The url of the lab's monitor repository.
pub const BIO_LAB_URL: &'static str = "git@github.com:ComputationalBiomechanicsLab/osimperf-monitor.git";

/// Where a repository is and what it should be.
pub struct RepositoryPath {
    /// e.g. opensim-core, biolab, testbranch
    pub name: String,
    pub path: String,
    /// e.g. OPENSIM_CORE_URL
    pub url: String,
    /// e.g. main
    pub branch: String,
}

/// A repository checked out at a known commit of a known branch.
pub struct Repository {
    name: String,
    path: String,
    url: String,
    branch: String,
    hash: String,
}

/// The plain contents of a [`Repository`].
pub struct RepositoryView {
    pub name: Seq<char>,
    pub path: Seq<char>,
    pub url: Seq<char>,
    pub branch: Seq<char>,
    pub hash: Seq<char>,
}

impl View for Repository {
    type V = RepositoryView;

    closed spec fn view(&self) -> RepositoryView {
        RepositoryView {
            name: self.name@,
            path: self.path@,
            url: self.url@,
            branch: self.branch@,
            hash: self.hash@,
        }
    }
}

/// What checking the repository `r` gave: its remote url must contain the
/// expected one, its checked out commit must be the expected one, and that
/// commit must be on the expected branch; `res` is the first check that
/// failed, or `Ok`.
pub open spec fn verify_outcome<
    F: Fn(&Invocation) -> Result<CommandOutput, RunError>,
    E: Fn(&str) -> bool,
>(runner: F, path_exists: E, r: RepositoryView, res: Result<(), Error>) -> bool {
    exists|b: bool, o, u: Result<Seq<char>, Error>|
        #![trigger answered(path_exists, r.path, b), repo_url_outcome(runner, r.path, b, o, u)]
        answered(path_exists, r.path, b) && repo_url_outcome(runner, r.path, b, o, u) && match u {
            Err(e) => res == Err::<(), Error>(e),
            Ok(url) => if !contains_spec(url, r.url) {
                res == Err::<(), Error>(Error::UrlMismatch)
            } else {
                exists|o2| #[trigger]
                    ran(runner, current_commit_inv(r.path), o2) && match trimmed_result(o2) {
                        Err(e) => res == Err::<(), Error>(e),
                        Ok(h) => if h != r.hash {
                            res == Err::<(), Error>(Error::HashMismatch)
                        } else {
                            exists|o3| #[trigger]
                                ran(runner, merged_inv(r.path, r.hash), o3) && match stdout_result(o3) {
                                    Err(e) => res == Err::<(), Error>(e),
                                    Ok(m) => res == if branch_listed(m, r.branch) {
                                        Ok::<(), Error>(())
                                    } else {
                                        Err::<(), Error>(Error::BranchMismatch)
                                    },
                                }
                        },
                    }
            },
        }
}

/// What checking `r` gave, as [`verify_outcome`] states it, together with
/// the runner's log going from `before` to `after`: only the reading
/// commands are handed over, in order (the remote url where the path
/// exists, the checked out commit once the url matched, the branches
/// holding the commit once the commit matched), and none after the first
/// failure.
pub open spec fn verify_run<
    F: Fn(&Invocation) -> Result<CommandOutput, RunError>,
    E: Fn(&str) -> bool,
>(
    runner: F,
    path_exists: E,
    r: RepositoryView,
    before: Seq<InvocationView>,
    after: Seq<InvocationView>,
    res: Result<(), Error>,
) -> bool {
    exists|b: bool, o, u: Result<Seq<char>, Error>|
        #![trigger answered(path_exists, r.path, b), repo_url_outcome(runner, r.path, b, o, u)]
        answered(path_exists, r.path, b) && repo_url_outcome(runner, r.path, b, o, u) && {
            let l1 = if b {
                before.push(remote_inv(r.path))
            } else {
                before
            };
            let l2 = l1.push(current_commit_inv(r.path));
            let l3 = l2.push(merged_inv(r.path, r.hash));
            match u {
                Err(e) => res == Err::<(), Error>(e) && after == l1,
                Ok(url) => if !contains_spec(url, r.url) {
                    res == Err::<(), Error>(Error::UrlMismatch) && after == l1
                } else {
                    exists|o2| #[trigger]
                        ran(runner, current_commit_inv(r.path), o2) && match trimmed_result(o2) {
                            Err(e) => res == Err::<(), Error>(e) && after == l2,
                            Ok(h) => if h != r.hash {
                                res == Err::<(), Error>(Error::HashMismatch) && after == l2
                            } else {
                                after == l3 && exists|o3| #[trigger]
                                    ran(runner, merged_inv(r.path, r.hash), o3) && match stdout_result(o3) {
                                        Err(e) => res == Err::<(), Error>(e),
                                        Ok(m) => res == if branch_listed(m, r.branch) {
                                            Ok::<(), Error>(())
                                        } else {
                                            Err::<(), Error>(Error::BranchMismatch)
                                        },
                                    }
                            },
                        }
                },
            }
        }
}

/// What making a repository of `repo` gave once its remote url was read as
/// `u`, with the runner's log going from `l1` to `after`: the branch is
/// switched to only once the url matched, the checked out commit is read
/// only once the switch succeeded, and then the repository is checked as
/// in [`verify_run`].
pub open spec fn new_after_url<
    F: Fn(&Invocation) -> Result<CommandOutput, RunError>,
    E: Fn(&str) -> bool,
>(
    runner: F,
    path_exists: E,
    repo: RepositoryPath,
    u: Result<Seq<char>, Error>,
    l1: Seq<InvocationView>,
    after: Seq<InvocationView>,
    res: Result<Repository, Error>,
) -> bool {
    let l2 = l1.push(switch_inv(repo.path@, repo.branch@));
    let l3 = l2.push(current_commit_inv(repo.path@));
    match u {
        Err(e) => res == Err::<Repository, Error>(e) && after == l1,
        Ok(url) => if !contains_spec(url, repo.url@) {
            res == Err::<Repository, Error>(Error::UrlMismatch) && after == l1
        } else {
            exists|o2| #[trigger]
                ran(runner, switch_inv(repo.path@, repo.branch@), o2) && match discard(stdout_result(o2)) {
                    Err(e) => res == Err::<Repository, Error>(e) && after == l2,
                    Ok(_) => exists|o3| #[trigger]
                        ran(runner, current_commit_inv(repo.path@), o3) && match trimmed_result(o3) {
                            Err(e) => res == Err::<Repository, Error>(e) && after == l3,
                            Ok(h) => {
                                let r = RepositoryView {
                                    name: repo.name@,
                                    path: repo.path@,
                                    url: repo.url@,
                                    branch: repo.branch@,
                                    hash: h,
                                };
                                exists|v: Result<(), Error>|
                                    #[trigger] verify_run(runner, path_exists, r, l3, after, v) && match v {
                                        Err(e) => res == Err::<Repository, Error>(e),
                                        Ok(_) => res matches Ok(x) && x@ == r,
                                    }
                            },
                        },
                }
        },
    }
}

/// What making a repository of `repo` gave, as [`new_outcome`] states it,
/// together with the runner's log going from `before` to `after`: the
/// remote url is read first (where the path exists), then as
/// [`new_after_url`] states.
pub open spec fn new_run<
    F: Fn(&Invocation) -> Result<CommandOutput, RunError>,
    E: Fn(&str) -> bool,
>(
    runner: F,
    path_exists: E,
    repo: RepositoryPath,
    before: Seq<InvocationView>,
    after: Seq<InvocationView>,
    res: Result<Repository, Error>,
) -> bool {
    exists|b: bool, o, u: Result<Seq<char>, Error>|
        #![trigger answered(path_exists, repo.path@, b), repo_url_outcome(runner, repo.path@, b, o, u)]
        answered(path_exists, repo.path@, b) && repo_url_outcome(runner, repo.path@, b, o, u)
            && new_after_url(
            runner,
            path_exists,
            repo,
            u,
            if b {
                before.push(remote_inv(repo.path@))
            } else {
                before
            },
            after,
            res,
        )
}

/// What making a repository of `repo` gave: its url must contain the
/// expected one, then it is switched to its branch, then the commit it has
/// checked out is read, and the repository at that commit is checked; `res`
/// is the first step that failed, or the repository.
pub open spec fn new_outcome<
    F: Fn(&Invocation) -> Result<CommandOutput, RunError>,
    E: Fn(&str) -> bool,
>(runner: F, path_exists: E, repo: RepositoryPath, res: Result<Repository, Error>) -> bool {
    exists|b: bool, o, u: Result<Seq<char>, Error>|
        #![trigger answered(path_exists, repo.path@, b), repo_url_outcome(runner, repo.path@, b, o, u)]
        answered(path_exists, repo.path@, b) && repo_url_outcome(runner, repo.path@, b, o, u)
            && match u {
            Err(e) => res == Err::<Repository, Error>(e),
            Ok(url) => if !contains_spec(url, repo.url@) {
                res == Err::<Repository, Error>(Error::UrlMismatch)
            } else {
                exists|o2| #[trigger]
                    ran(runner, switch_inv(repo.path@, repo.branch@), o2) && match discard(
                        stdout_result(o2),
                    ) {
                        Err(e) => res == Err::<Repository, Error>(e),
                        Ok(_) => exists|o3| #[trigger]
                            ran(runner, current_commit_inv(repo.path@), o3) && match trimmed_result(o3) {
                                Err(e) => res == Err::<Repository, Error>(e),
                                Ok(h) => {
                                    let r = RepositoryView {
                                        name: repo.name@,
                                        path: repo.path@,
                                        url: repo.url@,
                                        branch: repo.branch@,
                                        hash: h,
                                    };
                                    exists|v: Result<(), Error>|
                                        #[trigger] verify_outcome(runner, path_exists, r, v) && match v {
                                            Err(e) => res == Err::<Repository, Error>(e),
                                            Ok(_) => res matches Ok(x) && x@ == r,
                                        }
                                },
                            },
                    }
            },
        }
}

/// The name `name-branch-date-hash` of the folders of the install of the
/// commit checked out in `r`, once `r` was checked and `hash` dated as
/// `date`.
pub open spec fn install_subfolder(r: RepositoryView, date: Seq<char>) -> Seq<char> {
    r.name + "-"@ + r.branch + "-"@ + date + "-"@ + r.hash
}

/// What asking for the folder name with the date of `hash` gave: the check
/// of `r`, then the date of `hash`.
pub open spec fn subfolder_outcome<
    F: Fn(&Invocation) -> Result<CommandOutput, RunError>,
    E: Fn(&str) -> bool,
>(runner: F, path_exists: E, r: RepositoryView, hash: Seq<char>, res: Result<Seq<char>, Error>) -> bool {
    exists|v: Result<(), Error>|
        #[trigger] verify_outcome(runner, path_exists, r, v) && match v {
            Err(e) => res == Err::<Seq<char>, Error>(e),
            Ok(_) => exists|d: Result<Seq<char>, Error>|
                #[trigger] commit_date_outcome(runner, r.path, hash, d) && match d {
                    Err(e) => res == Err::<Seq<char>, Error>(e),
                    Ok(date) => res == Ok::<Seq<char>, Error>(install_subfolder(r, date)),
                },
        }
}

/// What asking for the folder name with the date of `hash` gave, as
/// [`subfolder_outcome`] states it, together with the runner's log going
/// from `before` to `after`: the check of `r` as in [`verify_run`], then,
/// once it passed, git's date of `hash`, then, once that was read, `date`
/// rewriting it.
pub open spec fn subfolder_run<
    F: Fn(&Invocation) -> Result<CommandOutput, RunError>,
    E: Fn(&str) -> bool,
>(
    runner: F,
    path_exists: E,
    r: RepositoryView,
    hash: Seq<char>,
    before: Seq<InvocationView>,
    after: Seq<InvocationView>,
    res: Result<Seq<char>, Error>,
) -> bool {
    exists|v: Result<(), Error>, l1: Seq<InvocationView>|
        #[trigger] verify_run(runner, path_exists, r, before, l1, v) && match v {
            Err(e) => res == Err::<Seq<char>, Error>(e) && after == l1,
            Ok(_) => exists|o1| #[trigger]
                ran(runner, show_date_inv(r.path, hash), o1) && match trimmed_result(o1) {
                    Err(e) => res == Err::<Seq<char>, Error>(e) && after == l1.push(show_date_inv(r.path, hash)),
                    Ok(d) => after == l1.push(show_date_inv(r.path, hash)).push(fmt_date_inv(d))
                        && exists|o2| #[trigger]
                        ran(runner, fmt_date_inv(d), o2) && match trimmed_result(o2) {
                            Err(e) => res == Err::<Seq<char>, Error>(e),
                            Ok(date) => res == Ok::<Seq<char>, Error>(install_subfolder(r, date)),
                        },
                },
        }
}

/// The hash `hash` if given, or else `own`.
pub open spec fn hash_or(hash: Option<&str>, own: Seq<char>) -> Seq<char> {
    match hash {
        Some(h) => h@,
        None => own,
    }
}

/// The hashes of the commits `v`.
pub open spec fn hashes_of(v: Seq<GitCommitView>) -> Seq<Seq<char>> {
    v.map_values(|c: GitCommitView| c.hash)
}

/// The first nine bytes of `hash`, as `split_at(9)` cuts them: `None`
/// where the hash has fewer bytes or byte nine is inside a character.
pub open spec fn short_hash_spec(hash: Seq<char>) -> Option<Seq<char>> {
    byte_prefix(hash, 9)
}

/// The first nine bytes of `hash`: an error where the hash has fewer bytes
/// or byte nine is inside a character.
pub fn short_hash(hash: &str) -> (r: Result<String, Error>)
    ensures
        r matches Ok(s) ==> short_hash_spec(hash@) == Some(s@),
        r is Err ==> short_hash_spec(hash@) is None && r == Err::<String, Error>(Error::InvalidHash),
{
    match byte_prefix_of(hash, 9) {
        Some(s) => Ok(s),
        None => Err(Error::InvalidHash),
    }
}

/// The `opensim-cmd --version` command of an install at `install`.
pub open spec fn version_cmd(install: Seq<char>) -> CommandView {
    CommandView {
        cmd: path_join(install, "opensim-core/bin/opensim-cmd"@),
        args: seq!["--version"@],
        envs: Seq::empty(),
        root: None,
    }
}

/// What asking `opensim-cmd --version` of the install at `install` gave:
/// whether it names the commit `hash`; a run that failed says no.
pub open spec fn version_outcome<F: Fn(&Invocation) -> Result<CommandOutput, RunError>>(
    runner: F,
    install: Seq<char>,
    hash: Seq<char>,
    res: Result<bool, Error>,
) -> bool {
    exists|o| #[trigger]
        ran(runner, InvocationView::Single(version_cmd(install)), o) && match trimmed_result(o) {
            Err(_) => res == Ok::<bool, Error>(false),
            Ok(out) => match short_hash_spec(hash) {
                None => res == Err::<bool, Error>(Error::InvalidHash),
                Some(sh) => res == Ok::<bool, Error>(contains_spec(out, sh)),
            },
        }
}

/// Runs `opensim-cmd --version` of the install at `install` and tells
/// whether it names the commit `hash`.
pub fn installed_version_matches<F: Fn(&Invocation) -> Result<CommandOutput, RunError>>(
    install: &str,
    hash: &str,
    runner: &mut Runner<F>,
) -> (res: Result<bool, Error>)
    requires
        accepts_all(old(runner).fun()),
    ensures
        final(runner).fun() == old(runner).fun(),
        final(runner).log() == old(runner).log().push(InvocationView::Single(version_cmd(install@))),
        version_outcome(old(runner).fun(), install@, hash@, res),
{
    let opensim_cmd_path = join(install, "opensim-core/bin/opensim-cmd");
    let mut cmd = Command::new(opensim_cmd_path.as_str());
    cmd.add_arg("--version");
    assert(cmd@ == version_cmd(install@));
    let output = match cmd.run_trim(runner) {
        Ok(res) => res,
        Err(_) => {
            return Ok(false);
        },
    };
    let short = short_hash(hash)?;
    Ok(contains(output.as_str(), short.as_str()))
}

impl RepositoryPath {
    /// The repository at this path, once checked.
    pub fn to_repo<F: Fn(&Invocation) -> Result<CommandOutput, RunError>, E: Fn(&str) -> bool>(
        self,
        runner: &mut Runner<F>,
        path_exists: &E,
    ) -> (res: Result<Repository, Error>)
        requires
            accepts_all(old(runner).fun()),
            forall|p: &str| call_requires(*path_exists, (p,)),
        ensures
            final(runner).fun() == old(runner).fun(),
            new_run(old(runner).fun(), *path_exists, self, old(runner).log(), final(runner).log(), res),
            new_outcome(old(runner).fun(), *path_exists, self, res),
    {
        Repository::new(self, runner, path_exists)
    }
}

impl Repository {
    /// The repository at `repo`, switched to its branch, at the commit it
    /// then has checked out, once checked.
    pub fn new<F: Fn(&Invocation) -> Result<CommandOutput, RunError>, E: Fn(&str) -> bool>(
        repo: RepositoryPath,
        runner: &mut Runner<F>,
        path_exists: &E,
    ) -> (res: Result<Self, Error>)
        requires
            accepts_all(old(runner).fun()),
            forall|p: &str| call_requires(*path_exists, (p,)),
        ensures
            final(runner).fun() == old(runner).fun(),
            new_outcome(old(runner).fun(), *path_exists, repo, res),
            new_run(old(runner).fun(), *path_exists, repo, old(runner).log(), final(runner).log(), res),
    {
        let ghost rp = repo;
        let ghost ol = runner.log();
        let read_url = read_repo_url(repo.path.as_str(), runner, path_exists);
        let ghost (b0, o0) = choose|b: bool, o: Result<CommandOutput, RunError>|
            answered(*path_exists, rp.path@, b) && repo_url_outcome(old(runner).fun(), rp.path@, b, o, sres(read_url))
                && runner.log() == (if b {
                ol.push(remote_inv(rp.path@))
            } else {
                ol
            });
        let url = match read_url {
            Ok(u) => u,
            Err(e) => {
                return Err(e);
            },
        };
        if !contains(url.as_str(), repo.url.as_str()) {
            return Err(Error::UrlMismatch);
        }
        let ghost l1 = runner.log();
        assert(answered(*path_exists, rp.path@, b0) && repo_url_outcome(
            old(runner).fun(),
            rp.path@,
            b0,
            o0,
            Ok::<Seq<char>, Error>(url@),
        ));
        let switched = switch_branch(repo.path.as_str(), repo.branch.as_str(), runner);
        assert(runner.log() == l1.push(switch_inv(repo.path@, repo.branch@)));
        if let Err(e) = switched {
            return Err(e);
        }
        let read_hash = read_current_commit(repo.path.as_str(), runner);
        let hash = match read_hash {
            Ok(h) => h,
            Err(e) => {
                return Err(e);
            },
        };
        let ghost r = RepositoryView {
            name: repo.name@,
            path: repo.path@,
            url: repo.url@,
            branch: repo.branch@,
            hash: hash@,
        };
        let ghost l3 = runner.log();
        let out = Self { hash, name: repo.name, branch: repo.branch, path: repo.path, url: repo.url };
        assert(out@ == r);
        let v = out.verify(runner, path_exists);
        match v {
            Ok(()) => {
                let res: Result<Self, Error> = Ok(out);
                assert(new_after_url(
                    old(runner).fun(),
                    *path_exists,
                    rp,
                    Ok::<Seq<char>, Error>(url@),
                    l1,
                    runner.log(),
                    res,
                ));
                assert(new_run(old(runner).fun(), *path_exists, rp, ol, runner.log(), res));
                res
            },
            Err(e) => Err(e),
        }
    }

    /// Checks that the repository still fetches from its url, has its
    /// commit checked out, and that the commit is on its branch.
    pub fn verify<F: Fn(&Invocation) -> Result<CommandOutput, RunError>, E: Fn(&str) -> bool>(
        &self,
        runner: &mut Runner<F>,
        path_exists: &E,
    ) -> (res: Result<(), Error>)
        requires
            accepts_all(old(runner).fun()),
            forall|p: &str| call_requires(*path_exists, (p,)),
        ensures
            final(runner).fun() == old(runner).fun(),
            verify_outcome(old(runner).fun(), *path_exists, self@, res),
            verify_run(old(runner).fun(), *path_exists, self@, old(runner).log(), final(runner).log(), res),
    {
        let read_url = read_repo_url(self.path.as_str(), runner, path_exists);
        let url = match read_url {
            Ok(u) => u,
            Err(e) => {
                return Err(e);
            },
        };
        if !contains(url.as_str(), self.url.as_str()) {
            return Err(Error::UrlMismatch);
        }
        let read_hash = read_current_commit(self.path.as_str(), runner);
        let h = match read_hash {
            Ok(h) => h,
            Err(e) => {
                return Err(e);
            },
        };
        if !str_eq(h.as_str(), self.hash.as_str()) {
            return Err(Error::HashMismatch);
        }
        let merged = commit_merged_to(self.path.as_str(), self.hash.as_str(), runner);
        let was_merged_to = match merged {
            Ok(m) => m,
            Err(e) => {
                return Err(e);
            },
        };
        if crate::common::git::branch_in_listing(was_merged_to.as_str(), self.branch.as_str()) {
            Ok(())
        } else {
            Err(Error::BranchMismatch)
        }
    }

    /// Checks out the commit `hash`, after checking the repository, and
    /// checks it again after a checkout.
    pub fn checkout<F: Fn(&Invocation) -> Result<CommandOutput, RunError>, E: Fn(&str) -> bool>(
        &mut self,
        hash: &str,
        runner: &mut Runner<F>,
        path_exists: &E,
    ) -> (res: Result<(), Error>)
        requires
            accepts_all(old(runner).fun()),
            forall|p: &str| call_requires(*path_exists, (p,)),
        ensures
            final(runner).fun() == old(runner).fun(),
            exists|v: Result<(), Error>, l1: Seq<InvocationView>|
                #[trigger] verify_run(old(runner).fun(), *path_exists, old(self)@, old(runner).log(), l1, v)
                    && match v {
                    Err(e) => res == Err::<(), Error>(e) && final(self)@ == old(self)@ && final(runner).log() == l1,
                    Ok(_) => if hash@ == old(self)@.hash {
                        res is Ok && final(self)@ == old(self)@ && final(runner).log() == l1
                    } else {
                        exists|o| #[trigger]
                            ran(old(runner).fun(), checkout_inv(old(self)@.path, hash@), o) && match discard(
                                stdout_result(o),
                            ) {
                                Err(e) => res == Err::<(), Error>(e) && final(self)@ == old(self)@
                                    && final(runner).log() == l1.push(checkout_inv(old(self)@.path, hash@)),
                                Ok(_) => final(self)@ == (RepositoryView {
                                    hash: hash@,
                                    ..old(self)@
                                }) && verify_run(
                                    old(runner).fun(),
                                    *path_exists,
                                    final(self)@,
                                    l1.push(checkout_inv(old(self)@.path, hash@)),
                                    final(runner).log(),
                                    res,
                                ),
                            }
                    },
                },
    {
        self.verify(runner, path_exists)?;
        if !str_eq(hash, self.hash.as_str()) {
            checkout_commit(self.path.as_str(), hash, runner)?;
            self.hash = to_string(hash);
            self.verify(runner, path_exists)?;
        }
        Ok(())
    }

    /// The path of the repository, once checked.
    pub fn path<F: Fn(&Invocation) -> Result<CommandOutput, RunError>, E: Fn(&str) -> bool>(
        &self,
        runner: &mut Runner<F>,
        path_exists: &E,
    ) -> (res: Result<&String, Error>)
        requires
            accepts_all(old(runner).fun()),
            forall|p: &str| call_requires(*path_exists, (p,)),
        ensures
            final(runner).fun() == old(runner).fun(),
            exists|v: Result<(), Error>|
                #[trigger] verify_run(old(runner).fun(), *path_exists, self@, old(runner).log(), final(runner).log(), v)
                    && match v {
                    Err(e) => res == Err::<&String, Error>(e),
                    Ok(_) => res is Ok,
                },
            exists|v: Result<(), Error>|
                #[trigger] verify_outcome(old(runner).fun(), *path_exists, self@, v) && match v {
                    Err(e) => res == Err::<&String, Error>(e),
                    Ok(_) => res matches Ok(p) && p@ == self@.path,
                },
    {
        self.verify(runner, path_exists)?;
        Ok(&self.path)
    }

    /// The branch of the repository, once checked.
    pub fn branch<F: Fn(&Invocation) -> Result<CommandOutput, RunError>, E: Fn(&str) -> bool>(
        &self,
        runner: &mut Runner<F>,
        path_exists: &E,
    ) -> (res: Result<&str, Error>)
        requires
            accepts_all(old(runner).fun()),
            forall|p: &str| call_requires(*path_exists, (p,)),
        ensures
            final(runner).fun() == old(runner).fun(),
            exists|v: Result<(), Error>|
                #[trigger] verify_run(old(runner).fun(), *path_exists, self@, old(runner).log(), final(runner).log(), v)
                    && match v {
                    Err(e) => res == Err::<&str, Error>(e),
                    Ok(_) => res is Ok,
                },
            exists|v: Result<(), Error>|
                #[trigger] verify_outcome(old(runner).fun(), *path_exists, self@, v) && match v {
                    Err(e) => res == Err::<&str, Error>(e),
                    Ok(_) => res matches Ok(b) && b@ == self@.branch,
                },
    {
        self.verify(runner, path_exists)?;
        Ok(self.branch.as_str())
    }

    /// The hashes of the commits of the branch between two dates, newest
    /// first, once the repository was checked.
    pub fn commits_between<F: Fn(&Invocation) -> Result<CommandOutput, RunError>, E: Fn(&str) -> bool>(
        &self,
        after_date: Option<&str>,
        before_date: Option<&str>,
        runner: &mut Runner<F>,
        path_exists: &E,
    ) -> (res: Result<Vec<String>, Error>)
        requires
            accepts_all(old(runner).fun()),
            forall|p: &str| call_requires(*path_exists, (p,)),
        ensures
            final(runner).fun() == old(runner).fun(),
            exists|v: Result<(), Error>, l1: Seq<InvocationView>|
                #[trigger] verify_run(old(runner).fun(), *path_exists, self@, old(runner).log(), l1, v) && match v {
                    Err(_) => final(runner).log() == l1,
                    Ok(_) => final(runner).log() == l1.push(
                        hashes_inv(self@.path, self@.branch, opt_str(after_date), opt_str(before_date)),
                    ),
                },
            exists|v: Result<(), Error>|
                #[trigger] verify_outcome(old(runner).fun(), *path_exists, self@, v) && match v {
                    Err(e) => res == Err::<Vec<String>, Error>(e),
                    Ok(_) => exists|o| #[trigger]
                        ran(
                            old(runner).fun(),
                            hashes_inv(self@.path, self@.branch, opt_str(after_date), opt_str(before_date)),
                            o,
                        ) && match (res, stdout_result(o)) {
                            (Ok(l), Ok(s)) => views(l@) == lines_of(s),
                            (Err(e1), Err(e2)) => e1 == e2,
                            _ => false,
                        },
                },
    {
        self.verify(runner, path_exists)?;
        git_hashes::get_commits_since(
            self.path.as_str(),
            self.branch.as_str(),
            after_date,
            before_date,
            runner,
        )
    }

    /// The hashes of the first commit listed of each day among the commits
    /// of the branch between two dates, once the repository was checked.
    pub fn collect_daily_commits<
        F: Fn(&Invocation) -> Result<CommandOutput, RunError>,
        E: Fn(&str) -> bool,
    >(
        &self,
        after_date: Option<&str>,
        before_date: Option<&str>,
        runner: &mut Runner<F>,
        path_exists: &E,
    ) -> (res: Result<Vec<String>, Error>)
        requires
            accepts_all(old(runner).fun()),
            forall|p: &str| call_requires(*path_exists, (p,)),
        ensures
            final(runner).fun() == old(runner).fun(),
            res matches Ok(v) ==> {
                &&& verify_outcome(old(runner).fun(), *path_exists, self@, Ok(()))
                &&& exists|all: Seq<GitCommitView>|
                    #[trigger] hashes_of(keep_by_last(all, date_key()))
                        == views(v@) && (forall|i: int|
                        0 <= i < all.len() ==> dated(
                            old(runner).fun(),
                            self@.path,
                            all[i].hash,
                            (#[trigger] all[i]).date,
                        )) && exists|o| #[trigger]
                        ran(
                            old(runner).fun(),
                            hashes_inv(self@.path, self@.branch, opt_str(after_date), opt_str(before_date)),
                            o,
                        ) && stdout_result(o) is Ok && hashes_of(all)
                            == lines_of(stdout_result(o)->Ok_0)
            },
            res matches Err(e) ==> verify_outcome(old(runner).fun(), *path_exists, self@, Err(e)) || dated_listing_err(
                old(runner).fun(),
                self@.path,
                self@.branch,
                opt_str(after_date),
                opt_str(before_date),
                e,
            ),
    {
        let ghost listing = hashes_inv(self@.path, self@.branch, opt_str(after_date), opt_str(before_date));
        let v = self.verify(runner, path_exists);
        if let Err(e) = v {
            return Err(e);
        }
        let listed = self.commits_between(after_date, before_date, runner, path_exists);
        let hashes = match listed {
            Ok(h) => h,
            Err(e) => {
                assert(verify_outcome(old(runner).fun(), *path_exists, self@, Err(e)) || gave(
                    old(runner).fun(),
                    listing,
                    Err::<Seq<char>, Error>(e),
                ));
                return Err(e);
            },
        };
        let ghost s = choose|s: Seq<char>|
            gave(old(runner).fun(), listing, Ok::<Seq<char>, Error>(s)) && views(hashes@) == lines_of(s);
        assert(gave(old(runner).fun(), listing, Ok::<Seq<char>, Error>(s)) && views(hashes@) == lines_of(s));
        let mut commits: Vec<GitCommit> = Vec::new();
        let mut i: usize = 0;
        while i < hashes.len()
            invariant
                i <= hashes.len(),
                commits.len() == i,
                accepts_all(old(runner).fun()),
                runner.fun() == old(runner).fun(),
                listing == hashes_inv(self@.path, self@.branch, opt_str(after_date), opt_str(before_date)),
                gave(old(runner).fun(), listing, Ok::<Seq<char>, Error>(s)),
                views(hashes@) == lines_of(s),
                forall|j: int| 0 <= j < i ==> (#[trigger] commits@[j]).hash@ == hashes@[j]@,
                forall|j: int|
                    0 <= j < i ==> dated(old(runner).fun(), self@.path, commits@[j].hash@, (#[trigger] commits@[j]).date@),
            decreases hashes.len() - i,
        {
            let hash = hashes[i].clone();
            let d = git_hashes::date_of_commit(self.path.as_str(), hash.as_str(), runner);
            let date = match d {
                Ok(x) => x,
                Err(e) => {
                    proof {
                        assert(views(hashes@)[i as int] == hashes@[i as int]@);
                        assert(commit_date_outcome(old(runner).fun(), self@.path, lines_of(s)[i as int], Err::<Seq<char>, Error>(e)));
                    }
                    return Err(e);
                },
            };
            assert(dated(old(runner).fun(), self@.path, hash@, date@));
            commits.push(GitCommit { hash, date });
            i = i + 1;
        }
        let ghost all = git_commit_views(commits@);
        assert(hashes_of(all) =~= views(hashes@));
        let kept = keep_first_of_each_day(commits);
        let mut out: Vec<String> = Vec::new();
        let mut k: usize = 0;
        while k < kept.len()
            invariant
                k <= kept.len(),
                views(out@) == hashes_of(git_commit_views(kept@)).take(
                    k as int,
                ),
            decreases kept.len() - k,
        {
            let h = kept[k].hash.clone();
            let ghost before = out@;
            out.push(h);
            assert(views(out@) =~= views(before).push(h@));
            assert(hashes_of(git_commit_views(kept@)).take(k + 1)
                =~= hashes_of(git_commit_views(kept@)).take(k as int).push(
                h@,
            ));
            k = k + 1;
        }
        assert(hashes_of(git_commit_views(kept@)).take(kept.len() as int)
            =~= hashes_of(git_commit_views(kept@)));
        proof {
            assert forall|i: int| 0 <= i < all.len() implies dated(
                old(runner).fun(),
                self@.path,
                all[i].hash,
                (#[trigger] all[i]).date,
            ) by {
                assert(all[i] == commits@[i]@);
            }
        }
        Ok(out)
    }

    /// The name `name-branch-date-hash` of the install folders, where the
    /// date is that of `hash` and the hash that of the checked out commit.
    fn subfolder_name<F: Fn(&Invocation) -> Result<CommandOutput, RunError>, E: Fn(&str) -> bool>(
        &self,
        hash: &str,
        runner: &mut Runner<F>,
        path_exists: &E,
    ) -> (res: Result<String, Error>)
        requires
            accepts_all(old(runner).fun()),
            forall|p: &str| call_requires(*path_exists, (p,)),
        ensures
            final(runner).fun() == old(runner).fun(),
            subfolder_outcome(old(runner).fun(), *path_exists, self@, hash@, sres(res)),
            subfolder_run(old(runner).fun(), *path_exists, self@, hash@, old(runner).log(), final(runner).log(), sres(res)),
    {
        let ghost l0 = runner.log();
        let v = self.verify(runner, path_exists);
        let ghost l1 = runner.log();
        assert(verify_run(old(runner).fun(), *path_exists, self@, l0, l1, v));
        if let Err(e) = v {
            return Err(e);
        }
        let d = git_hashes::date_of_commit(self.path.as_str(), hash, runner);
        let date = match d {
            Ok(date) => date,
            Err(e) => {
                return Err(e);
            },
        };
        let mut s = to_string(self.name.as_str());
        s.append("-");
        s.append(self.branch.as_str());
        s.append("-");
        s.append(date.as_str());
        s.append("-");
        s.append(self.hash.as_str());
        proof {
            assert(s@ == install_subfolder(self@, date@));
        }
        Ok(s)
    }

    /// Install folder: archive/name-branch-date-hash
    pub fn install_folder<F: Fn(&Invocation) -> Result<CommandOutput, RunError>, E: Fn(&str) -> bool>(
        &self,
        archive: &Archive,
        runner: &mut Runner<F>,
        path_exists: &E,
    ) -> (res: Result<String, Error>)
        requires
            accepts_all(old(runner).fun()),
            forall|p: &str| call_requires(*path_exists, (p,)),
        ensures
            final(runner).fun() == old(runner).fun(),
            exists|n: Result<Seq<char>, Error>|
                #[trigger] subfolder_run(old(runner).fun(), *path_exists, self@, self@.hash, old(runner).log(), final(runner).log(), n)
                    && match n {
                    Err(e) => res == Err::<String, Error>(e),
                    Ok(name) => res matches Ok(p) && p@ == path_join(archive.path_spec(), name),
                },
            exists|n: Result<Seq<char>, Error>|
                #[trigger] subfolder_outcome(old(runner).fun(), *path_exists, self@, self@.hash, n) && match n {
                    Err(e) => res == Err::<String, Error>(e),
                    Ok(name) => res matches Ok(p) && p@ == path_join(archive.path_spec(), name),
                },
    {
        let name = self.subfolder_name(self.hash.as_str(), runner, path_exists)?;
        Ok(join(archive.path()?, name.as_str()))
    }

    /// Results folder: results/name-branch-date-hash
    pub fn results_folder<F: Fn(&Invocation) -> Result<CommandOutput, RunError>, E: Fn(&str) -> bool>(
        &self,
        folder: &ResultsFolder,
        runner: &mut Runner<F>,
        path_exists: &E,
    ) -> (res: Result<String, Error>)
        requires
            accepts_all(old(runner).fun()),
            forall|p: &str| call_requires(*path_exists, (p,)),
        ensures
            final(runner).fun() == old(runner).fun(),
            exists|n: Result<Seq<char>, Error>|
                #[trigger] subfolder_run(old(runner).fun(), *path_exists, self@, self@.hash, old(runner).log(), final(runner).log(), n)
                    && match n {
                    Err(e) => res == Err::<String, Error>(e),
                    Ok(name) => res matches Ok(p) && p@ == path_join(folder.path_spec(), name),
                },
            exists|n: Result<Seq<char>, Error>|
                #[trigger] subfolder_outcome(old(runner).fun(), *path_exists, self@, self@.hash, n) && match n {
                    Err(e) => res == Err::<String, Error>(e),
                    Ok(name) => res matches Ok(p) && p@ == path_join(folder.path_spec(), name),
                },
    {
        let name = self.subfolder_name(self.hash.as_str(), runner, path_exists)?;
        Ok(join(folder.path()?, name.as_str()))
    }

    /// Whether the archive holds a usable install of `hash` (or of the
    /// checked out commit): a folder marked as failed counts as done;
    /// otherwise its `opensim-cmd --version` must name the commit.
    pub fn verify_installation<
        F: Fn(&Invocation) -> Result<CommandOutput, RunError>,
        E: Fn(&str) -> bool,
    >(&self, archive: &Archive, hash: Option<&str>, runner: &mut Runner<F>, path_exists: &E) -> (res: Result<
        bool,
        Error,
    >)
        requires
            accepts_all(old(runner).fun()),
            forall|p: &str| call_requires(*path_exists, (p,)),
        ensures
            final(runner).fun() == old(runner).fun(),
            ({
                let h = hash_or(hash, self@.hash);
                exists|n1: Result<Seq<char>, Error>, l1: Seq<InvocationView>|
                    #[trigger] subfolder_run(old(runner).fun(), *path_exists, self@, h, old(runner).log(), l1, n1)
                        && match n1 {
                        Err(e) => res == Err::<bool, Error>(e) && final(runner).log() == l1,
                        Ok(name1) => exists|b1: bool|
                            #[trigger] answered(
                                *path_exists,
                                path_join(archive.path_spec(), name1 + "-failed"@),
                                b1,
                            ) && if b1 {
                                res == Ok::<bool, Error>(true) && final(runner).log() == l1
                            } else {
                                exists|n2: Result<Seq<char>, Error>, l2: Seq<InvocationView>|
                                    #[trigger] subfolder_run(old(runner).fun(), *path_exists, self@, h, l1, l2, n2)
                                        && match n2 {
                                        Err(e) => res == Err::<bool, Error>(e) && final(runner).log() == l2,
                                        Ok(name2) => {
                                            let install = path_join(archive.path_spec(), name2);
                                            exists|b2: bool|
                                                #[trigger] answered(
                                                    *path_exists,
                                                    path_join(install, "opensim-core/bin/opensim-cmd"@),
                                                    b2,
                                                ) && if !b2 {
                                                    res == Ok::<bool, Error>(false) && final(runner).log() == l2
                                                } else {
                                                    version_outcome(old(runner).fun(), install, h, res)
                                                        && final(runner).log() == l2.push(
                                                        InvocationView::Single(version_cmd(install)),
                                                    )
                                                }
                                        },
                                    }
                            },
                    }
            }),
            ({
                let h = hash_or(hash, self@.hash);
                exists|n1: Result<Seq<char>, Error>|
                    #[trigger] subfolder_outcome(old(runner).fun(), *path_exists, self@, h, n1) && match n1 {
                        Err(e) => res == Err::<bool, Error>(e),
                        Ok(name1) => exists|b1: bool|
                            #[trigger] answered(
                                *path_exists,
                                path_join(archive.path_spec(), name1 + "-failed"@),
                                b1,
                            ) && if b1 {
                                res == Ok::<bool, Error>(true)
                            } else {
                                exists|n2: Result<Seq<char>, Error>|
                                    #[trigger] subfolder_outcome(old(runner).fun(), *path_exists, self@, h, n2)
                                        && match n2 {
                                        Err(e) => res == Err::<bool, Error>(e),
                                        Ok(name2) => {
                                            let install = path_join(archive.path_spec(), name2);
                                            exists|b2: bool|
                                                #[trigger] answered(
                                                    *path_exists,
                                                    path_join(install, "opensim-core/bin/opensim-cmd"@),
                                                    b2,
                                                ) && if !b2 {
                                                    res == Ok::<bool, Error>(false)
                                                } else {
                                                    version_outcome(old(runner).fun(), install, h, res)
                                                }
                                        },
                                    }
                            },
                    }
            }),
    {
        let ghost hv = hash_or(hash, self@.hash);
        let hash = match hash {
            Some(h) => h,
            None => self.hash.as_str(),
        };
        assert(hash@ == hv);
        let r1 = self.subfolder_name(hash, runner, path_exists);
        assert(subfolder_outcome(old(runner).fun(), *path_exists, self@, hv, sres(r1)));
        let name1 = match r1 {
            Ok(n) => n,
            Err(e) => {
                assert(subfolder_outcome(old(runner).fun(), *path_exists, self@, hv, Err::<Seq<char>, Error>(e)));
                return Err(e);
            },
        };
        assert(subfolder_outcome(old(runner).fun(), *path_exists, self@, hv, Ok::<Seq<char>, Error>(name1@)));
        let mut failed = name1.clone();
        failed.append("-failed");
        let failed_folder = join(archive.path()?, failed.as_str());
        let b1 = path_exists(failed_folder.as_str());
        assert(failed_folder@ == path_join(archive.path_spec(), name1@ + "-failed"@));
        assert(answered(*path_exists, path_join(archive.path_spec(), name1@ + "-failed"@), b1));
        let ghost n1 = Ok::<Seq<char>, Error>(name1@);
        assert(answered(*path_exists, path_join(archive.path_spec(), n1->Ok_0 + "-failed"@), b1));
        assert(subfolder_outcome(old(runner).fun(), *path_exists, self@, hv, n1));
        if b1 {
            return Ok(true);
        }
        let r2 = self.subfolder_name(hash, runner, path_exists);
        assert(subfolder_outcome(old(runner).fun(), *path_exists, self@, hv, sres(r2)));
        let name2 = match r2 {
            Ok(n) => n,
            Err(e) => {
                assert(subfolder_outcome(old(runner).fun(), *path_exists, self@, hv, Err::<Seq<char>, Error>(e)));
                return Err(e);
            },
        };
        assert(subfolder_outcome(old(runner).fun(), *path_exists, self@, hv, Ok::<Seq<char>, Error>(name2@)));
        let install = join(archive.path()?, name2.as_str());
        let opensim_cmd_path = join(install.as_str(), "opensim-core/bin/opensim-cmd");
        let b2 = path_exists(opensim_cmd_path.as_str());
        assert(install@ == path_join(archive.path_spec(), name2@));
        assert(answered(*path_exists, path_join(install@, "opensim-core/bin/opensim-cmd"@), b2));
        let ghost n2 = Ok::<Seq<char>, Error>(name2@);
        assert(subfolder_outcome(old(runner).fun(), *path_exists, self@, hv, n2));
        assert(answered(
            *path_exists,
            path_join(path_join(archive.path_spec(), n2->Ok_0), "opensim-core/bin/opensim-cmd"@),
            b2,
        ));
        if !b2 {
            return Ok(false);
        }
        let res = installed_version_matches(install.as_str(), hash, runner);
        assert(version_outcome(old(runner).fun(), path_join(archive.path_spec(), n2->Ok_0), hv, res));
        res
    }
}

} // verus!
