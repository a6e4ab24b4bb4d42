//! A repository to take commits from, as configured.
use vstd::prelude::*;
use crate::command::Runner;
use vstd::string::*;

use crate::command::{accepts_all, ran, sres, stdout_result, trimmed_result, CommandOutput, Invocation, InvocationView, RunError};
use crate::common::git::{
    self, as_commit, as_commits, commits_result, cres, csres, current_commit_inv,
    date_key, keep_by_last, keep_monthly, last_commit_result, log_inv, merged_inv, pull_inv,
    remote_inv, repo_url_outcome, since_inv, Commit,
};
use crate::error::Error;
use crate::folders::{answered, Folder, Home};
use crate::node::repo::source::checkout_outcome;
use crate::text::{contains, contains_spec, join, opt_str, opt_view, path_join, to_string};
use crate::{BIO_LAB_URL, OPENSIM_CORE_URL};

verus! {

/// The repositories of the biomechanics lab to follow.
pub struct BioLabRepositoryConfig {
    pub repositories: Vec<RepositoryConfig>,
}

/// A repository to follow, as configured.
pub struct RepositoryConfig {
    pub name: String,
    pub branch: String,
    /// Path to repository: defaults to a folder under `software` in home.
    pub path: Option<String>,
    /// Defaults to the url of the repository's kind.
    pub url: Option<String>,
}

/// A repository with its path, url and branch.
pub struct Repository {
    /// For nicer folder and results identifiers.
    pub name: String,
    /// Path to repository.
    pub path: String,
    /// For checking that path is correct.
    pub url: String,
    /// The branch the commit should belong to.
    pub branch: String,
}

/// The plain contents of a [`Repository`].
pub struct RepositoryView {
    pub name: Seq<char>,
    pub path: Seq<char>,
    pub url: Seq<char>,
    pub branch: Seq<char>,
}

impl View for Repository {
    type V = RepositoryView;

    open spec fn view(&self) -> RepositoryView {
        RepositoryView { name: self.name@, path: self.path@, url: self.url@, branch: self.branch@ }
    }
}

/// The repository at its currently checked out commit.
pub struct RepositoryState {
    path: String,
}

impl RepositoryState {
    /// The path of the repository.
    pub closed spec fn path_spec(&self) -> Seq<char> {
        self.path@
    }

    /// The state of the repository at `path`.
    pub fn at(path: String) -> (s: Self)
        ensures
            s.path_spec() == path@,
    {
        Self { path }
    }

    /// The path of the repository.
    pub fn path(&self) -> (p: &String)
        ensures
            p@ == self.path_spec(),
    {
        &self.path
    }
}

/// The path a configured repository gets: its own, or `software/DEFAULT`
/// in home.
pub open spec fn configured_path(path: Option<Seq<char>>, home: Seq<char>, default: Seq<char>) -> Seq<char> {
    match path {
        Some(p) => p,
        None => path_join(path_join(home, "software"@), default),
    }
}


/// The repository that a configuration gives: its url is the configured
/// one where given, else `default_url`.
pub open spec fn configured_repository(
    config: RepositoryConfig,
    home: Seq<char>,
    default: Seq<char>,
    default_url: Seq<char>,
) -> RepositoryView {
    RepositoryView {
        name: config.name@,
        path: configured_path(opt_view(config.path), home, default),
        url: match opt_view(config.url) {
            Some(u) => u,
            None => default_url,
        },
        branch: config.branch@,
    }
}

/// What a url check gives when reading the remote url gave `read`: the
/// read url must contain the expected one.
pub open spec fn url_check(read: Result<Seq<char>, Error>, url: Seq<char>) -> Result<(), Error> {
    match read {
        Ok(u) => if contains_spec(u, url) {
            Ok(())
        } else {
            Err(Error::UrlMismatch)
        },
        Err(e) => Err(e),
    }
}

/// Checking that the repository at `path` fetches from an url containing
/// `url` gave `res`.
pub open spec fn url_checked<
    F: Fn(&Invocation) -> Result<CommandOutput, RunError>,
    E: Fn(&str) -> bool,
>(runner: F, path_exists: E, path: Seq<char>, url: Seq<char>, res: Result<(), Error>) -> bool {
    exists|b: bool, o, u: Result<Seq<char>, Error>|
        #![trigger answered(path_exists, path, b), repo_url_outcome(runner, path, b, o, u)]
        answered(path_exists, path, b) && repo_url_outcome(runner, path, b, o, u) && res == url_check(
            u,
            url,
        )
}

/// The repository that the lab configuration `c` gives in the home folder
/// `home`, before its url is checked.
pub open spec fn lab_want(c: RepositoryConfig, home: Seq<char>) -> RepositoryView {
    configured_repository(c, home, "computational-biomechanics-lab"@, BIO_LAB_URL@)
}

/// Checking that the repository at `path` fetches from an url containing
/// `url` gave `res`, with the runner's log going from `before` to `after`:
/// the remote url is read where the path exists, and nothing else is run.
pub open spec fn url_checked_run<
    F: Fn(&Invocation) -> Result<CommandOutput, RunError>,
    E: Fn(&str) -> bool,
>(
    runner: F,
    path_exists: E,
    path: Seq<char>,
    url: Seq<char>,
    before: Seq<InvocationView>,
    after: Seq<InvocationView>,
    res: Result<(), Error>,
) -> bool {
    exists|b: bool, o, u: Result<Seq<char>, Error>|
        #![trigger answered(path_exists, path, b), repo_url_outcome(runner, path, b, o, u)]
        answered(path_exists, path, b) && repo_url_outcome(runner, path, b, o, u) && res == url_check(u, url)
            && after == (if b {
            before.push(remote_inv(path))
        } else {
            before
        })
}

/// `r` is the lab repository that `c` configures in the home folder
/// `home`, and its url was checked.
pub open spec fn lab_repository<
    F: Fn(&Invocation) -> Result<CommandOutput, RunError>,
    E: Fn(&str) -> bool,
>(runner: F, path_exists: E, c: RepositoryConfig, home: Seq<char>, r: Repository) -> bool {
    let want = configured_repository(c, home, "computational-biomechanics-lab"@, BIO_LAB_URL@);
    &&& r@ == want
    &&& url_checked(runner, path_exists, want.path, want.url, Ok(()))
}

/// The repository `r`, once its url was checked: `res` is `r` when the
/// check passed, and the check's error otherwise.
pub open spec fn checked_repository<
    F: Fn(&Invocation) -> Result<CommandOutput, RunError>,
    E: Fn(&str) -> bool,
>(runner: F, path_exists: E, r: RepositoryView, res: Result<Repository, Error>) -> bool {
    exists|v: Result<(), Error>|
        #[trigger] url_checked(runner, path_exists, r.path, r.url, v) && match v {
            Ok(_) => res matches Ok(x) && x@ == r,
            Err(e) => res == Err::<Repository, Error>(e),
        }
}

impl Default for RepositoryConfig {
    fn default() -> (c: Self)
        ensures
            c.name@ == "opensim"@,
            c.branch@ == "main"@,
            c.path is None,
            c.url is None,
    {
        Self { name: to_string("opensim"), branch: to_string("main"), path: None, url: None }
    }
}

impl BioLabRepositoryConfig {
    /// The configured repositories, each with its configured url or else the
    /// lab's url, once each one's url was checked.
    pub fn take<
        F: Fn(&Invocation) -> Result<CommandOutput, RunError>,
        E: Fn(&str) -> bool,
    >(self, home: &Home, runner: &mut Runner<F>, path_exists: &E) -> (res: Result<Vec<Repository>, Error>)
        requires
            accepts_all(old(runner).fun()),
            forall|p: &str| call_requires(*path_exists, (p,)),
        ensures
            final(runner).fun() == old(runner).fun(),
            res matches Ok(v) ==> v@.len() == self.repositories@.len() && forall|i: int|
                0 <= i < v@.len() ==> #[trigger] lab_repository(
                    old(runner).fun(),
                    *path_exists,
                    self.repositories@[i],
                    home.path_spec(),
                    v@[i],
                ),
            exists|logs: Seq<Seq<InvocationView>>|
                #![trigger logs.len()]
                logs.len() >= 1 && logs[0] == old(runner).log() && logs.last() == final(runner).log()
                    && logs.len() <= self.repositories@.len() + 1 && (forall|j: int|
                    0 <= j < logs.len() - 2 ==> #[trigger] url_checked_run(
                        old(runner).fun(),
                        *path_exists,
                        lab_want(self.repositories@[j], home.path_spec()).path,
                        lab_want(self.repositories@[j], home.path_spec()).url,
                        logs[j],
                        logs[j + 1],
                        Ok(()),
                    )) && match res {
                    Ok(_) => logs.len() == self.repositories@.len() + 1 && (logs.len() >= 2 ==> url_checked_run(
                        old(runner).fun(),
                        *path_exists,
                        lab_want(self.repositories@[logs.len() - 2], home.path_spec()).path,
                        lab_want(self.repositories@[logs.len() - 2], home.path_spec()).url,
                        logs[logs.len() - 2],
                        logs[logs.len() - 1],
                        Ok(()),
                    )),
                    Err(e) => logs.len() >= 2 && url_checked_run(
                        old(runner).fun(),
                        *path_exists,
                        lab_want(self.repositories@[logs.len() - 2], home.path_spec()).path,
                        lab_want(self.repositories@[logs.len() - 2], home.path_spec()).url,
                        logs[logs.len() - 2],
                        logs[logs.len() - 1],
                        Err(e),
                    ),
                },
    {
        let mut repos: Vec<Repository> = Vec::new();
        let mut configs = self.repositories;
        let ghost all = configs@;
        let n = configs.len();
        let mut i: usize = 0;
        let ghost mut logs: Seq<Seq<InvocationView>> = seq![runner.log()];
        while i < n
            invariant
                n == configs.len(),
                configs@ == all,
                all == self.repositories@,
                logs.len() == i + 1,
                logs[0] == old(runner).log(),
                logs.last() == runner.log(),
                forall|j: int|
                    0 <= j < i ==> #[trigger] url_checked_run(
                        old(runner).fun(),
                        *path_exists,
                        lab_want(self.repositories@[j], home.path_spec()).path,
                        lab_want(self.repositories@[j], home.path_spec()).url,
                        logs[j],
                        logs[j + 1],
                        Ok(()),
                    ),
                i <= n,
                repos@.len() == i,
                accepts_all(old(runner).fun()),
                runner.fun() == old(runner).fun(),
                forall|p: &str| call_requires(*path_exists, (p,)),
                forall|j: int|
                    0 <= j < i ==> #[trigger] lab_repository(old(runner).fun(), *path_exists, all[j], home.path_spec(), repos@[j]),
            decreases n - i,
        {
            let r = &configs[i];
            let c = RepositoryConfig {
                name: r.name.clone(),
                branch: r.branch.clone(),
                path: match &r.path {
                    Some(p) => Some(p.clone()),
                    None => None,
                },
                url: match &r.url {
                    Some(u) => Some(u.clone()),
                    None => None,
                },
            };
            let ghost want = configured_repository(
                all[i as int],
                home.path_spec(),
                "computational-biomechanics-lab"@,
                BIO_LAB_URL@,
            );
            assert(configured_repository(
                c,
                home.path_spec(),
                "computational-biomechanics-lab"@,
                BIO_LAB_URL@,
            ) == want);
            let ghost prev = runner.log();
            let made = Repository::new_default_biolab(c, home, runner, path_exists);
            let ghost v2 = choose|v: Result<(), Error>|
                #[trigger] url_checked_run(
                    old(runner).fun(),
                    *path_exists,
                    lab_want(c, home.path_spec()).path,
                    lab_want(c, home.path_spec()).url,
                    prev,
                    runner.log(),
                    v,
                ) && match v {
                    Ok(_) => made matches Ok(x) && x@ == lab_want(c, home.path_spec()),
                    Err(e) => made == Err::<Repository, Error>(e),
                };
            let ghost old_logs = logs;
            proof {
                logs = logs.push(runner.log());
                assert(lab_want(c, home.path_spec()) == lab_want(self.repositories@[i as int], home.path_spec()));
                assert(logs[i as int] == prev);
                assert(forall|j: int| 0 <= j <= i ==> logs[j] == old_logs[j]);
            }
            let ghost v = choose|v: Result<(), Error>|
                #[trigger] url_checked(old(runner).fun(), *path_exists, want.path, want.url, v) && match v {
                    Ok(_) => made matches Ok(x) && x@ == want,
                    Err(e) => made == Err::<Repository, Error>(e),
                };
            let repo = match made {
                Ok(r) => r,
                Err(e) => {
                    assert(v == Err::<(), Error>(e));
                    assert(url_checked(old(runner).fun(), *path_exists, want.path, want.url, Err::<(), Error>(e)));
                    assert(self.repositories@[i as int] == all[i as int]);
                    assert(v2 == Err::<(), Error>(e));
                    assert(logs.len() >= 1 && logs[0] == old(runner).log() && logs.last() == runner.log()
                        && logs.len() <= self.repositories@.len() + 1);
                    return Err(e);
                },
            };
            assert(v == Ok::<(), Error>(()));
            assert(v2 == Ok::<(), Error>(()));
            assert(repo@ == want);
            assert forall|j: int| 0 <= j < i + 1 implies #[trigger] url_checked_run(
                old(runner).fun(),
                *path_exists,
                lab_want(self.repositories@[j], home.path_spec()).path,
                lab_want(self.repositories@[j], home.path_spec()).url,
                logs[j],
                logs[j + 1],
                Ok(()),
            ) by {
                if j < i {
                    assert(logs[j] == old_logs[j] && logs[j + 1] == old_logs[j + 1]);
                }
            }
            let ghost before = repos@;
            repos.push(repo);
            assert forall|j: int| 0 <= j < i + 1 implies #[trigger] lab_repository(
                old(runner).fun(),
                *path_exists,
                all[j],
                home.path_spec(),
                repos@[j],
            ) by {
                if j < i {
                    assert(repos@[j] == before[j]);
                }
            }
            i = i + 1;
        }
        proof {
            if logs.len() >= 2 {
                let k = logs.len() - 2;
                assert(0 <= k < i);
                assert(url_checked_run(
                    old(runner).fun(),
                    *path_exists,
                    lab_want(self.repositories@[k], home.path_spec()).path,
                    lab_want(self.repositories@[k], home.path_spec()).url,
                    logs[k],
                    logs[k + 1],
                    Ok(()),
                ));
                assert(k + 1 == logs.len() - 1);
            }
            assert(logs.len() >= 2 ==> url_checked_run(
                old(runner).fun(),
                *path_exists,
                lab_want(self.repositories@[logs.len() - 2], home.path_spec()).path,
                lab_want(self.repositories@[logs.len() - 2], home.path_spec()).url,
                logs[logs.len() - 2],
                logs[logs.len() - 1],
                Ok(()),
            ));
        }
        Ok(repos)
    }
}

impl RepositoryConfig {
    /// The configured repository, with its configured url or else
    /// opensim-core's url, once its url was checked.
    pub fn take<
        F: Fn(&Invocation) -> Result<CommandOutput, RunError>,
        E: Fn(&str) -> bool,
    >(self, home: &Home, runner: &mut Runner<F>, path_exists: &E) -> (res: Result<Repository, Error>)
        requires
            accepts_all(old(runner).fun()),
            forall|p: &str| call_requires(*path_exists, (p,)),
        ensures
            ({
                let want = configured_repository(self, home.path_spec(), "opensim-core"@, OPENSIM_CORE_URL@);
                exists|b: bool, o, u: Result<Seq<char>, Error>| #[trigger]
                    answered(*path_exists, want.path, b) && #[trigger] repo_url_outcome(
                        old(runner).fun(),
                        want.path,
                        b,
                        o,
                        u,
                    ) && final(runner).log() == (if b {
                        old(runner).log().push(remote_inv(want.path))
                    } else {
                        old(runner).log()
                    }) && match url_check(u, want.url) {
                        Ok(_) => res matches Ok(x) && x@ == want,
                        Err(e) => res == Err::<Repository, Error>(e),
                    }
            }),
            final(runner).fun() == old(runner).fun(),
            checked_repository(
                old(runner).fun(),
                *path_exists,
                configured_repository(self, home.path_spec(), "opensim-core"@, OPENSIM_CORE_URL@),
                res,
            ),
    {
        Repository::new_default_opensim_core(self, home, runner, path_exists)
    }
}

impl Repository {
    /// Checks that the repository's remote url contains its url.
    fn verify_url<
        F: Fn(&Invocation) -> Result<CommandOutput, RunError>,
        E: Fn(&str) -> bool,
    >(&self, runner: &mut Runner<F>, path_exists: &E) -> (res: Result<(), Error>)
        requires
            accepts_all(old(runner).fun()),
            forall|p: &str| call_requires(*path_exists, (p,)),
        ensures
            final(runner).fun() == old(runner).fun(),
            url_checked(old(runner).fun(), *path_exists, self.path@, self.url@, res),
            url_checked_run(old(runner).fun(), *path_exists, self.path@, self.url@, old(runner).log(), final(runner).log(), res),
    {
        let read_url = git::read_repo_url(self.path.as_str(), runner, path_exists)?;
        if !contains(read_url.as_str(), self.url.as_str()) {
            return Err(Error::UrlMismatch);
        }
        Ok(())
    }

    /// The repository of a lab configuration, once its url was checked.
    fn new_default_biolab<
        F: Fn(&Invocation) -> Result<CommandOutput, RunError>,
        E: Fn(&str) -> bool,
    >(config: RepositoryConfig, home: &Home, runner: &mut Runner<F>, path_exists: &E) -> (res: Result<
        Self,
        Error,
    >)
        requires
            accepts_all(old(runner).fun()),
            forall|p: &str| call_requires(*path_exists, (p,)),
        ensures
            ({
                let want = configured_repository(config, home.path_spec(), "computational-biomechanics-lab"@, BIO_LAB_URL@);
                exists|b: bool, o, u: Result<Seq<char>, Error>| #[trigger]
                    answered(*path_exists, want.path, b) && #[trigger] repo_url_outcome(
                        old(runner).fun(),
                        want.path,
                        b,
                        o,
                        u,
                    ) && final(runner).log() == (if b {
                        old(runner).log().push(remote_inv(want.path))
                    } else {
                        old(runner).log()
                    }) && match url_check(u, want.url) {
                        Ok(_) => res matches Ok(x) && x@ == want,
                        Err(e) => res == Err::<Repository, Error>(e),
                    }
            }),
            exists|v: Result<(), Error>|
                #[trigger] url_checked_run(
                    old(runner).fun(),
                    *path_exists,
                    lab_want(config, home.path_spec()).path,
                    lab_want(config, home.path_spec()).url,
                    old(runner).log(),
                    final(runner).log(),
                    v,
                ) && match v {
                    Ok(_) => res matches Ok(x) && x@ == lab_want(config, home.path_spec()),
                    Err(e) => res == Err::<Repository, Error>(e),
                },
            final(runner).fun() == old(runner).fun(),
            checked_repository(
                old(runner).fun(),
                *path_exists,
                configured_repository(
                    config,
                    home.path_spec(),
                    "computational-biomechanics-lab"@,
                    BIO_LAB_URL@,
                ),
                res,
            ),
    {
        let ghost spec_repo = configured_repository(
            config,
            home.path_spec(),
            "computational-biomechanics-lab"@,
            BIO_LAB_URL@,
        );
        let path = match config.path {
            Some(p) => p,
            None => {
                let software = join(home.path_unchecked(), "software");
                join(software.as_str(), "computational-biomechanics-lab")
            },
        };
        let url = match config.url {
            Some(u) => u,
            None => to_string(BIO_LAB_URL),
        };
        let out = Self { name: config.name, path, url, branch: config.branch };
        assert(out@ == spec_repo);
        let v = out.verify_url(runner, path_exists);
        assert(url_checked(old(runner).fun(), *path_exists, spec_repo.path, spec_repo.url, v));
        assert(spec_repo == lab_want(config, home.path_spec()));
        assert(url_checked_run(
            old(runner).fun(),
            *path_exists,
            spec_repo.path,
            spec_repo.url,
            old(runner).log(),
            runner.log(),
            v,
        ));
        match v {
            Ok(()) => Ok(out),
            Err(e) => Err(e),
        }
    }

    /// The repository of an opensim-core configuration, once its url was
    /// checked.
    fn new_default_opensim_core<
        F: Fn(&Invocation) -> Result<CommandOutput, RunError>,
        E: Fn(&str) -> bool,
    >(config: RepositoryConfig, home: &Home, runner: &mut Runner<F>, path_exists: &E) -> (res: Result<
        Self,
        Error,
    >)
        requires
            accepts_all(old(runner).fun()),
            forall|p: &str| call_requires(*path_exists, (p,)),
        ensures
            ({
                let want = configured_repository(config, home.path_spec(), "opensim-core"@, OPENSIM_CORE_URL@);
                exists|b: bool, o, u: Result<Seq<char>, Error>| #[trigger]
                    answered(*path_exists, want.path, b) && #[trigger] repo_url_outcome(
                        old(runner).fun(),
                        want.path,
                        b,
                        o,
                        u,
                    ) && final(runner).log() == (if b {
                        old(runner).log().push(remote_inv(want.path))
                    } else {
                        old(runner).log()
                    }) && match url_check(u, want.url) {
                        Ok(_) => res matches Ok(x) && x@ == want,
                        Err(e) => res == Err::<Repository, Error>(e),
                    }
            }),
            final(runner).fun() == old(runner).fun(),
            checked_repository(
                old(runner).fun(),
                *path_exists,
                configured_repository(config, home.path_spec(), "opensim-core"@, OPENSIM_CORE_URL@),
                res,
            ),
    {
        let ghost spec_repo = configured_repository(
            config,
            home.path_spec(),
            "opensim-core"@,
            OPENSIM_CORE_URL@,
        );
        let path = match config.path {
            Some(p) => p,
            None => {
                let software = join(home.path_unchecked(), "software");
                join(software.as_str(), "opensim-core")
            },
        };
        let url = match config.url {
            Some(u) => u,
            None => to_string(OPENSIM_CORE_URL),
        };
        let out = Self {
            name: config.name,
            path,
            url,
            branch: config.branch,
        };
        assert(out@ == spec_repo);
        let v = out.verify_url(runner, path_exists);
        assert(url_checked(old(runner).fun(), *path_exists, spec_repo.path, spec_repo.url, v));
        match v {
            Ok(()) => Ok(out),
            Err(e) => Err(e),
        }
    }

    /// The newest commit of the repository's branch.
    pub fn last_commit<F: Fn(&Invocation) -> Result<CommandOutput, RunError>>(&self, runner: &mut Runner<F>) -> (res:
        Result<Commit, Error>)
        requires
            accepts_all(old(runner).fun()),
        ensures
            final(runner).fun() == old(runner).fun(),
            final(runner).log() == old(runner).log().push(log_inv(self.path@, self.branch@)),
            exists|o| #[trigger] ran(old(runner).fun(), log_inv(self.path@, self.branch@), o) && cres(res)
                == as_commit(last_commit_result(stdout_result(o))),
    {
        git::get_last_commit(self.path.as_str(), self.branch.as_str(), runner)
    }

    /// The commits of the branch between two dates, newest first.
    fn commits_between<F: Fn(&Invocation) -> Result<CommandOutput, RunError>>(
        &self,
        after_date: Option<&str>,
        before_date: Option<&str>,
        runner: &mut Runner<F>,
    ) -> (res: Result<Vec<Commit>, Error>)
        requires
            accepts_all(old(runner).fun()),
        ensures
            final(runner).fun() == old(runner).fun(),
            final(runner).log() == old(runner).log().push(since_inv(self.path@, self.branch@, opt_str(after_date), opt_str(before_date))),
            exists|o| #[trigger]
                ran(
                    old(runner).fun(),
                    since_inv(self.path@, self.branch@, opt_str(after_date), opt_str(before_date)),
                    o,
                ) && csres(res) == as_commits(commits_result(stdout_result(o))),
    {
        git::get_commits_since(self.path.as_str(), self.branch.as_str(), after_date, before_date, runner)
    }

    /// The first commit listed of each month between two dates.
    pub fn collect_monthly_commits<F: Fn(&Invocation) -> Result<CommandOutput, RunError>>(
        &self,
        after_date: Option<&str>,
        before_date: Option<&str>,
        runner: &mut Runner<F>,
    ) -> (res: Result<Vec<Commit>, Error>)
        requires
            accepts_all(old(runner).fun()),
        ensures
            final(runner).fun() == old(runner).fun(),
            final(runner).log() == old(runner).log().push(since_inv(self.path@, self.branch@, opt_str(after_date), opt_str(before_date))),
            exists|o| #[trigger]
                ran(
                    old(runner).fun(),
                    since_inv(self.path@, self.branch@, opt_str(after_date), opt_str(before_date)),
                    o,
                ) && csres(res) == (match as_commits(commits_result(stdout_result(o))) {
                    Ok(v) => keep_monthly(v),
                    Err(e) => Err(e),
                }),
    {
        let commits = self.commits_between(after_date, before_date, runner)?;
        git::keep_first_of_each_month(commits)
    }

    /// The first commit listed of each day between two dates.
    pub fn collect_daily_commits<F: Fn(&Invocation) -> Result<CommandOutput, RunError>>(
        &self,
        after_date: Option<&str>,
        before_date: Option<&str>,
        runner: &mut Runner<F>,
    ) -> (res: Result<Vec<Commit>, Error>)
        requires
            accepts_all(old(runner).fun()),
        ensures
            final(runner).fun() == old(runner).fun(),
            final(runner).log() == old(runner).log().push(since_inv(self.path@, self.branch@, opt_str(after_date), opt_str(before_date))),
            exists|o| #[trigger]
                ran(
                    old(runner).fun(),
                    since_inv(self.path@, self.branch@, opt_str(after_date), opt_str(before_date)),
                    o,
                ) && csres(res) == (match as_commits(commits_result(stdout_result(o))) {
                    Ok(v) => Ok(keep_by_last(v, date_key())),
                    Err(e) => Err(e),
                }),
    {
        let commits = self.commits_between(after_date, before_date, runner)?;
        Ok(git::keep_first_of_each_day(commits))
    }

    /// Checks out `commit` unless the repository is already there; succeeds
    /// only once git confirms that the commit is checked out.
    pub fn checkout<F: Fn(&Invocation) -> Result<CommandOutput, RunError>>(
        &self,
        commit: &Commit,
        runner: &mut Runner<F>,
    ) -> (res: Result<RepositoryState, Error>)
        requires
            accepts_all(old(runner).fun()),
        ensures
            final(runner).fun() == old(runner).fun(),
            res matches Ok(s) ==> s.path_spec() == self.path@,
            checkout_outcome(
                old(runner).fun(),
                self.path@,
                commit.hash@,
                old(runner).log(),
                final(runner).log(),
                match res {
                    Ok(_) => Ok::<(), Error>(()),
                    Err(e) => Err::<(), Error>(e),
                },
            ),
    {
        let _merged = git::was_commit_merged_to_branch(
            self.path.as_str(),
            self.branch.as_str(),
            commit.hash.as_str(),
            runner,
        )?;
        let hash = git::read_current_commit(self.path.as_str(), runner)?;
        if hash != commit.hash {
            git::checkout_commit(self.path.as_str(), commit.hash.as_str(), runner)?;
            let now = git::read_current_commit(self.path.as_str(), runner)?;
            if now != commit.hash {
                return Err(Error::CheckoutFailed);
            }
        }
        Ok(RepositoryState { path: self.path.clone() })
    }

    /// The repository's name.
    pub fn name(&self) -> (s: &str)
        ensures
            s@ == self.name@,
    {
        self.name.as_str()
    }

    /// The repository's branch.
    pub fn branch(&self) -> (s: &str)
        ensures
            s@ == self.branch@,
    {
        self.branch.as_str()
    }

    /// Pulls the branch; gives git's trimmed answer.
    pub fn pull<F: Fn(&Invocation) -> Result<CommandOutput, RunError>>(&mut self, runner: &mut Runner<F>) -> (res:
        Result<String, Error>)
        requires
            accepts_all(old(runner).fun()),
        ensures
            final(runner).fun() == old(runner).fun(),
            final(runner).log() == old(runner).log().push(pull_inv(old(self).path@)),
            final(self)@ == old(self)@,
            exists|o| #[trigger] ran(old(runner).fun(), pull_inv(old(self).path@), o) && sres(res)
                == trimmed_result(o),
    {
        git::pull(self.path.as_str(), runner)
    }
}

} // verus!
