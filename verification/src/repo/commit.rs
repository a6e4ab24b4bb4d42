//! A commit of a branch, with its date, and the install compiled from it.
use vstd::prelude::*;
use crate::command::Runner;

use super::git::{commits_since_err, commits_since_ok};
use super::{installed_version_matches, verify_run, version_outcome, verify_outcome, Repository};
use crate::command::{accepts_all, InvocationView, ran, stdout_result, CommandOutput, Invocation, RunError};
use crate::common::git::{get_last_commit, last_commit_result, log_inv};
use crate::error::Error;
use crate::folders::{answered, Archive, Folder, ResultsFolder};
use crate::text::{join, path_join, str_eq, to_string};

verus! {

/// A commit: its hash, its date (`YYYY_MM_DD`) and its branch.
pub struct Commit {
    hash: String,
    date: String,
    branch: String,
}

/// The plain contents of a [`Commit`].
pub struct CommitView {
    pub hash: Seq<char>,
    pub date: Seq<char>,
    pub branch: Seq<char>,
}

impl View for Commit {
    type V = CommitView;

    closed spec fn view(&self) -> CommitView {
        CommitView { hash: self.hash@, date: self.date@, branch: self.branch@ }
    }
}

/// Commits, by their views.
pub open spec fn commit_views(v: Seq<Commit>) -> Seq<CommitView> {
    v.map_values(|c: Commit| c@)
}

/// The commits of `v` whose date differs from that of the last commit kept
/// before them: the first commit listed of each day, for a list ordered by
/// date.
pub open spec fn keep_new_dates(v: Seq<CommitView>) -> Seq<CommitView>
    decreases v.len(),
{
    if v.len() == 0 {
        Seq::empty()
    } else {
        let k = keep_new_dates(v.drop_last());
        if k.len() > 0 && k.last().date == v.last().date {
            k
        } else {
            k.push(v.last())
        }
    }
}

/// `v[j]` starts a run of equal dates: it is listed first, or the commit
/// listed just before it has another date.
pub open spec fn starts_day(v: Seq<CommitView>, j: int) -> bool {
    j == 0 || v[j - 1].date != v[j].date
}

/// `pos` places the kept commits `k` in the listing `v`: each kept commit
/// is the listed one at its place, the places go up, and they are exactly
/// the commits that start a run of equal dates.
pub open spec fn placed_at_day_starts(k: Seq<CommitView>, v: Seq<CommitView>, pos: Seq<int>) -> bool {
    &&& pos.len() == k.len()
    &&& forall|i: int|
        0 <= i < k.len() ==> 0 <= #[trigger] pos[i] < v.len() && k[i] == v[pos[i]] && starts_day(v, pos[i])
    &&& forall|i: int, j: int| 0 <= i < j < k.len() ==> #[trigger] pos[i] < #[trigger] pos[j]
    &&& forall|j: int| 0 <= j < v.len() && #[trigger] starts_day(v, j) ==> exists|i: int| 0 <= i < k.len() && pos[i] == j
}

/// The daily collection keeps, of a listing, exactly the first commit of
/// each run of equal dates, in the order listed: no two neighbouring
/// commits it keeps share a date, every listed date has a kept commit, the
/// first listed commit is kept, and the last kept one has the date of the
/// last listed one.
pub proof fn law_one_commit_per_day(v: Seq<CommitView>)
    ensures
        ({
            let k = keep_new_dates(v);
            &&& k.len() <= v.len()
            &&& forall|i: int| 0 <= i < k.len() - 1 ==> (#[trigger] k[i]).date != k[i + 1].date
            &&& exists|pos: Seq<int>| #[trigger] placed_at_day_starts(k, v, pos)
            &&& forall|j: int| 0 <= j < v.len() ==> exists|i: int| 0 <= i < k.len() && #[trigger] k[i].date == (#[trigger] v[j]).date
            &&& v.len() > 0 ==> k.len() > 0 && k[0] == v[0] && k.last().date == v.last().date
        }),
    decreases v.len(),
{
    let k = keep_new_dates(v);
    if v.len() == 0 {
        let p = Seq::<int>::empty();
        assert(placed_at_day_starts(k, v, p));
    } else {
        let w = v.drop_last();
        let n = v.len() - 1;
        law_one_commit_per_day(w);
        let kw = keep_new_dates(w);
        let pw = choose|pos: Seq<int>| #[trigger] placed_at_day_starts(kw, w, pos);
        assert forall|j: int| 0 <= j < n implies #[trigger] starts_day(v, j) == starts_day(w, j) by {
            assert(v[j] == w[j]);
            if j > 0 {
                assert(v[j - 1] == w[j - 1]);
            }
        }
        if kw.len() > 0 && kw.last().date == v.last().date {
            assert(k == kw);
            assert(w.len() > 0);
            assert(w.last() == v[n - 1]);
            assert(!starts_day(v, n));
            assert(k[0] == w[0] && w[0] == v[0]);
            assert forall|i: int| 0 <= i < k.len() implies 0 <= #[trigger] pw[i] < v.len() && k[i] == v[pw[i]]
                && starts_day(v, pw[i]) by {
                assert(w[pw[i]] == v[pw[i]]);
            }
            assert(placed_at_day_starts(k, v, pw));
            assert forall|j: int| 0 <= j < v.len() implies exists|i: int| 0 <= i < k.len() && #[trigger] k[i].date == (#[trigger] v[j]).date by {
                if j < w.len() {
                    assert(v[j] == w[j]);
                } else {
                    assert(k[kw.len() - 1].date == v[j].date);
                }
            }
        } else {
            assert(k == kw.push(v.last()));
            if w.len() > 0 {
                assert(w.last() == v[n - 1]);
                assert(starts_day(v, n));
            }
            let p = pw.push(n);
            assert forall|i: int| 0 <= i < k.len() implies 0 <= #[trigger] p[i] < v.len() && k[i] == v[p[i]]
                && starts_day(v, p[i]) by {
                if i < kw.len() {
                    assert(p[i] == pw[i]);
                    assert(w[pw[i]] == v[pw[i]]);
                }
            }
            assert forall|i: int, j: int| 0 <= i < j < k.len() implies #[trigger] p[i] < #[trigger] p[j] by {
                if j < kw.len() {
                    assert(p[i] == pw[i] && p[j] == pw[j]);
                } else {
                    assert(p[i] == pw[i]);
                }
            }
            assert forall|j: int| 0 <= j < v.len() && #[trigger] starts_day(v, j) implies exists|i: int|
                0 <= i < k.len() && p[i] == j by {
                if j < n {
                    let i0 = choose|i: int| 0 <= i < kw.len() && pw[i] == j;
                    assert(p[i0] == pw[i0]);
                } else {
                    assert(p[kw.len() as int] == j);
                }
            }
            assert(placed_at_day_starts(k, v, p));
            assert forall|j: int| 0 <= j < v.len() implies exists|i: int| 0 <= i < k.len() && #[trigger] k[i].date == (#[trigger] v[j]).date by {
                if j < w.len() {
                    assert(v[j] == w[j]);
                    assert(0 <= j < w.len());
                    assert(exists|i: int| 0 <= i < kw.len() && #[trigger] kw[i].date == (#[trigger] w[j]).date);
                    let i0 = choose|i: int| 0 <= i < kw.len() && #[trigger] kw[i].date == (#[trigger] w[j]).date;
                    assert(k[i0] == kw[i0]);
                    assert(0 <= i0 < k.len() && k[i0].date == v[j].date);
                } else {
                    assert(j == n);
                    assert(k[kw.len() as int] == v.last());
                    assert(0 <= kw.len() < k.len() && k[kw.len() as int].date == v[j].date);
                }
            }
            assert forall|i: int| 0 <= i < k.len() - 1 implies (#[trigger] k[i]).date != k[i + 1].date by {
                if i + 1 < kw.len() {
                    assert(k[i] == kw[i] && k[i + 1] == kw[i + 1]);
                }
            }
            if w.len() == 0 {
                assert(kw.len() == 0);
                assert(k[0] == v[0]);
            } else {
                assert(k[0] == kw[0] && w[0] == v[0]);
            }
        }
    }
}

/// The folder name `opensim-core-branch-date-hash` of the commit's install.
pub open spec fn install_name(c: CommitView) -> Seq<char> {
    "opensim-core-"@ + c.branch + "-"@ + c.date + "-"@ + c.hash
}

/// The folder name `results-branch-date-hash` of the commit's results.
pub open spec fn results_name(c: CommitView) -> Seq<char> {
    "results-"@ + c.branch + "-"@ + c.date + "-"@ + c.hash
}

/// `branch-date-hash` of `c`, after `prefix`.
fn dashed(prefix: &str, c: &Commit) -> (s: String)
    ensures
        s@ == prefix@ + c@.branch + "-"@ + c@.date + "-"@ + c@.hash,
{
    let mut s = to_string(prefix);
    s.append(c.branch.as_str());
    s.append("-");
    s.append(c.date.as_str());
    s.append("-");
    s.append(c.hash.as_str());
    s
}

impl Commit {
    /// The commit with the hash, date and branch of `tuple`.
    pub fn from_tuple(tuple: (String, String, String)) -> (c: Self)
        ensures
            c@ == (CommitView { hash: tuple.0@, date: tuple.1@, branch: tuple.2@ }),
    {
        Self { hash: tuple.0, date: tuple.1, branch: tuple.2 }
    }

    /// The commit's hash.
    pub fn hash(&self) -> (s: &str)
        ensures
            s@ == self@.hash,
    {
        self.hash.as_str()
    }

    /// The first nine bytes of the hash: an error where it has fewer bytes
    /// or byte nine is inside a character.
    pub fn short_hash(&self) -> (r: Result<String, Error>)
        ensures
            r matches Ok(s) ==> super::short_hash_spec(self@.hash) == Some(s@),
            r is Err ==> super::short_hash_spec(self@.hash) is None,
    {
        super::short_hash(self.hash.as_str())
    }

    /// The commit's date.
    pub fn date(&self) -> (s: &str)
        ensures
            s@ == self@.date,
    {
        self.date.as_str()
    }

    /// The commit's branch.
    pub fn branch(&self) -> (s: &str)
        ensures
            s@ == self@.branch,
    {
        self.branch.as_str()
    }

    /// A copy of the commit.
    pub fn duplicate(&self) -> (c: Self)
        ensures
            c@ == self@,
    {
        Self { hash: self.hash.clone(), date: self.date.clone(), branch: self.branch.clone() }
    }

    /// Install folder: archive/opensim-core-branch-date-hash
    pub fn install_folder(&self, archive: &Archive) -> (res: Result<String, Error>)
        ensures
            res matches Ok(p) && p@ == path_join(archive.path_spec(), install_name(self@)),
    {
        Ok(join(archive.path()?, dashed("opensim-core-", self).as_str()))
    }

    /// Results folder: results/results-branch-date-hash
    pub fn results_folder(&self, folder: &ResultsFolder) -> (res: Result<String, Error>)
        ensures
            res matches Ok(p) && p@ == path_join(folder.path_spec(), results_name(self@)),
    {
        Ok(join(folder.path()?, dashed("results-", self).as_str()))
    }

    /// Whether the archive holds an install of this commit whose
    /// `opensim-cmd --version` names it.
    pub fn verify_compiled_version<
        F: Fn(&Invocation) -> Result<CommandOutput, RunError>,
        E: Fn(&str) -> bool,
    >(&self, archive: &Archive, runner: &mut Runner<F>, path_exists: &E) -> (res: Result<bool, Error>)
        requires
            accepts_all(old(runner).fun()),
            forall|p: &str| call_requires(*path_exists, (p,)),
        ensures
            final(runner).fun() == old(runner).fun(),
            ({
                let install = path_join(archive.path_spec(), install_name(self@));
                exists|b: bool|
                    #[trigger] answered(*path_exists, path_join(install, "opensim-core/bin/opensim-cmd"@), b)
                        && if !b {
                        res == Ok::<bool, Error>(false) && final(runner).log() == old(runner).log()
                    } else {
                        version_outcome(old(runner).fun(), install, self@.hash, res) && final(runner).log()
                            == old(runner).log().push(InvocationView::Single(super::version_cmd(install)))
                    }
            }),
    {
        let install = self.install_folder(archive)?;
        let opensim_cmd_path = join(install.as_str(), "opensim-core/bin/opensim-cmd");
        let b = path_exists(opensim_cmd_path.as_str());
        assert(answered(*path_exists, opensim_cmd_path@, b));
        if !b {
            return Ok(false);
        }
        installed_version_matches(install.as_str(), self.hash.as_str(), runner)
    }

    /// The newest commit of the repository's branch, once the repository
    /// was checked: the first line of the branch's log. A log without lines
    /// is `Error::EmptyOutput`.
    pub fn last_commit<F: Fn(&Invocation) -> Result<CommandOutput, RunError>, E: Fn(&str) -> bool>(
        repo: &Repository,
        runner: &mut Runner<F>,
        path_exists: &E,
    ) -> (res: Result<Self, Error>)
        requires
            accepts_all(old(runner).fun()),
            forall|p: &str| call_requires(*path_exists, (p,)),
        ensures
            exists|v1: Result<(), Error>, l1: Seq<InvocationView>|
                #[trigger] verify_run(old(runner).fun(), *path_exists, repo@, old(runner).log(), l1, v1) && match v1 {
                    Err(e) => res == Err::<Commit, Error>(e) && final(runner).log() == l1,
                    Ok(_) => exists|v2: Result<(), Error>, l2: Seq<InvocationView>|
                        #[trigger] verify_run(old(runner).fun(), *path_exists, repo@, l1, l2, v2) && match v2 {
                            Err(e) => res == Err::<Commit, Error>(e) && final(runner).log() == l2,
                            Ok(_) => final(runner).log() == l2.push(log_inv(repo@.path, repo@.branch)),
                        },
                },
            final(runner).fun() == old(runner).fun(),
            res matches Ok(c) ==> {
                &&& verify_outcome(old(runner).fun(), *path_exists, repo@, Ok(()))
                &&& c@.branch == repo@.branch
                &&& exists|o| #[trigger]
                    ran(old(runner).fun(), log_inv(repo@.path, repo@.branch), o) && last_commit_result(stdout_result(o))
                        == Ok::<(Seq<char>, Seq<char>), Error>((c@.hash, c@.date))
            },
            res matches Err(e) ==> verify_outcome(old(runner).fun(), *path_exists, repo@, Err(e)) || exists|o| #[trigger]
                ran(old(runner).fun(), log_inv(repo@.path, repo@.branch), o) && last_commit_result(stdout_result(o))
                    == Err::<(Seq<char>, Seq<char>), Error>(e),
    {
        let path = match repo.path(runner, path_exists) {
            Ok(p) => p,
            Err(e) => {
                return Err(e);
            },
        };
        let branch = match repo.branch(runner, path_exists) {
            Ok(b) => b,
            Err(e) => {
                return Err(e);
            },
        };
        match get_last_commit(path.as_str(), branch, runner) {
            Ok(c) => Ok(Self::from_tuple((c.hash, c.date, to_string(branch)))),
            Err(e) => Err(e),
        }
    }

    /// The first commit listed of each day among the commits of the
    /// repository's branch after `after_date`, once the repository was
    /// checked.
    pub fn collect_daily_commits<
        F: Fn(&Invocation) -> Result<CommandOutput, RunError>,
        E: Fn(&str) -> bool,
    >(repo: &Repository, after_date: &str, runner: &mut Runner<F>, path_exists: &E) -> (res: Result<
        Vec<Self>,
        Error,
    >)
        requires
            accepts_all(old(runner).fun()),
            forall|p: &str| call_requires(*path_exists, (p,)),
        ensures
            final(runner).fun() == old(runner).fun(),
            exists|v0: Result<(), Error>, l0: Seq<InvocationView>|
                #[trigger] verify_run(old(runner).fun(), *path_exists, repo@, old(runner).log(), l0, v0) && match v0 {
                    Err(e) => res == Err::<Vec<Self>, Error>(e) && final(runner).log() == l0,
                    Ok(_) => exists|v1: Result<(), Error>, l1: Seq<InvocationView>|
                        #[trigger] verify_run(old(runner).fun(), *path_exists, repo@, l0, l1, v1) && match v1 {
                            Err(e) => res == Err::<Vec<Self>, Error>(e) && final(runner).log() == l1,
                            Ok(_) => match res {
                                Ok(v) => exists|all: Seq<CommitView>|
                                    #[trigger] commits_since_ok(
                                        old(runner).fun(),
                                        repo@.path,
                                        repo@.branch,
                                        after_date@,
                                        l1,
                                        final(runner).log(),
                                        all,
                                    ) && keep_new_dates(all) == commit_views(v@) && forall|i: int|
                                        0 <= i < all.len() ==> (#[trigger] all[i]).branch == repo@.branch,
                                Err(e) => commits_since_err(
                                    old(runner).fun(),
                                    repo@.path,
                                    repo@.branch,
                                    after_date@,
                                    l1,
                                    final(runner).log(),
                                    e,
                                ),
                            },
                        },
                },
    {
        let path = repo.path(runner, path_exists)?;
        let branch = repo.branch(runner, path_exists)?;
        let listed = super::git::get_commits_since(path.as_str(), branch, after_date, runner)?;
        let ghost all = commit_views(listed@);
        let mut commits: Vec<Self> = Vec::new();
        let mut i: usize = 0;
        assert(all.take(0) =~= Seq::<CommitView>::empty());
        while i < listed.len()
            invariant
                i <= listed.len(),
                all == commit_views(listed@),
                commit_views(commits@) == keep_new_dates(all.take(i as int)),
            decreases listed.len() - i,
        {
            let c = &listed[i];
            assert(all.take(i + 1).drop_last() =~= all.take(i as int));
            assert(all.take(i + 1).last() == c@);
            let same = commits.len() > 0 && str_eq(commits[commits.len() - 1].date.as_str(), c.date.as_str());
            if !same {
                let ghost before = commits@;
                let d = c.duplicate();
                commits.push(d);
                assert(commit_views(commits@) =~= commit_views(before).push(c@));
            }
            i = i + 1;
        }
        assert(all.take(listed.len() as int) =~= all);
        proof {
            assert forall|i: int| 0 <= i < all.len() implies (#[trigger] all[i]).branch == repo@.branch by {
                assert(all[i] == listed@[i]@);
            }
        }
        Ok(commits)
    }
}

} // verus!
