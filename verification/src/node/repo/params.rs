//! Commits of a followed repository, listed by hash and dated one by one.
use vstd::prelude::*;
use crate::command::Runner;

use crate::command::{accepts_all, gave, ran, stdout_result, trimmed_result, CommandOutput, Invocation, RunError};
use crate::common::git::{commit_views, date_key, keep_by_last, keep_first_of_each_day, Commit, CommitView};
use crate::common::git_hashes::{self, commit_date_outcome, fmt_date_inv, hashes_inv, show_date_inv};
use crate::error::Error;
use crate::node::repo::Input;
use crate::text::{lines_of, opt_str};

verus! {

/// A commit to compile: its hash and its date.
pub struct Params {
    /// The commit we are checking out.
    pub hash: String,
    /// The date is for ordering results.
    pub date: String,
}

/// Parameters, by their views.
pub open spec fn params_views(v: Seq<Params>) -> Seq<CommitView> {
    v.map_values(|p: Params| CommitView { hash: p.hash@, date: p.date@ })
}

/// `date` is what dating `hash` gave: git's date of the commit, rewritten
/// by `date`.
pub open spec fn dated<F: Fn(&Invocation) -> Result<CommandOutput, RunError>>(
    runner: F,
    repo: Seq<char>,
    hash: Seq<char>,
    date: Seq<char>,
) -> bool {
    exists|o1, d: Seq<char>, o2|
        #![trigger ran(runner, show_date_inv(repo, hash), o1), ran(runner, fmt_date_inv(d), o2)]
        ran(runner, show_date_inv(repo, hash), o1) && trimmed_result(o1) == Ok::<Seq<char>, Error>(d)
            && ran(runner, fmt_date_inv(d), o2) && trimmed_result(o2) == Ok::<Seq<char>, Error>(date)
}

/// `e` is the first failure met while listing the hashes of `branch`
/// between two dates and dating them one by one: the listing itself failed,
/// or dating one of the listed hashes did.
pub open spec fn dated_listing_err<F: Fn(&Invocation) -> Result<CommandOutput, RunError>>(
    runner: F,
    repo: Seq<char>,
    branch: Seq<char>,
    after: Option<Seq<char>>,
    before: Option<Seq<char>>,
    e: Error,
) -> bool {
    let listing = hashes_inv(repo, branch, after, before);
    ||| gave(runner, listing, Err::<Seq<char>, Error>(e))
    ||| exists|s: Seq<char>|
        #[trigger] gave(runner, listing, Ok::<Seq<char>, Error>(s)) && exists|i: int|
            0 <= i < lines_of(s).len() && #[trigger] commit_date_outcome(
                runner,
                repo,
                lines_of(s)[i],
                Err::<Seq<char>, Error>(e),
            )
}

impl Params {
    /// The commits of the input's branch between two dates, newest first,
    /// each dated.
    fn commits_between<F: Fn(&Invocation) -> Result<CommandOutput, RunError>>(
        input: &Input,
        after_date: Option<&str>,
        before_date: Option<&str>,
        runner: &mut Runner<F>,
    ) -> (res: Result<Vec<Self>, Error>)
        requires
            accepts_all(old(runner).fun()),
        ensures
            final(runner).fun() == old(runner).fun(),
            res matches Ok(v) ==> {
                &&& exists|o| #[trigger]
                    ran(
                        old(runner).fun(),
                        hashes_inv(input.repo@, input.branch@, opt_str(after_date), opt_str(before_date)),
                        o,
                    ) && stdout_result(o) is Ok && params_views(v@).map_values(|c: CommitView| c.hash)
                        == lines_of(stdout_result(o)->Ok_0)
                &&& forall|i: int|
                    0 <= i < v@.len() ==> dated(old(runner).fun(), input.repo@, v@[i].hash@, (#[trigger] v@[i]).date@)
            },
            res matches Err(e) ==> dated_listing_err(
                old(runner).fun(),
                input.repo@,
                input.branch@,
                opt_str(after_date),
                opt_str(before_date),
                e,
            ),
    {
        let ghost listing = hashes_inv(input.repo@, input.branch@, opt_str(after_date), opt_str(before_date));
        let listed = git_hashes::get_commits_since(
            input.repo.as_str(),
            input.branch.as_str(),
            after_date,
            before_date,
            runner,
        );
        let hashes = match listed {
            Ok(h) => h,
            Err(e) => {
                assert(gave(old(runner).fun(), listing, Err::<Seq<char>, Error>(e)));
                return Err(e);
            },
        };
        let ghost s = choose|s: Seq<char>|
            gave(old(runner).fun(), listing, Ok::<Seq<char>, Error>(s)) && crate::text::views(hashes@) == lines_of(s);
        assert(gave(old(runner).fun(), listing, Ok::<Seq<char>, Error>(s)) && crate::text::views(hashes@) == lines_of(s));
        let mut out: Vec<Self> = Vec::new();
        let mut i: usize = 0;
        while i < hashes.len()
            invariant
                i <= hashes.len(),
                out@.len() == i,
                accepts_all(old(runner).fun()),
                runner.fun() == old(runner).fun(),
                listing == hashes_inv(input.repo@, input.branch@, opt_str(after_date), opt_str(before_date)),
                gave(old(runner).fun(), listing, Ok::<Seq<char>, Error>(s)),
                crate::text::views(hashes@) == lines_of(s),
                forall|j: int| 0 <= j < i ==> (#[trigger] out@[j]).hash@ == hashes@[j]@,
                forall|j: int| 0 <= j < i ==> dated(old(runner).fun(), input.repo@, out@[j].hash@, (#[trigger] out@[j]).date@),
            decreases hashes.len() - i,
        {
            let hash = hashes[i].clone();
            let d = git_hashes::date_of_commit(input.repo.as_str(), hash.as_str(), runner);
            let date = match d {
                Ok(x) => x,
                Err(e) => {
                    proof {
                        assert(crate::text::views(hashes@)[i as int] == hashes@[i as int]@);
                        assert(commit_date_outcome(old(runner).fun(), input.repo@, lines_of(s)[i as int], Err::<Seq<char>, Error>(e)));
                    }
                    return Err(e);
                },
            };
            assert(dated(old(runner).fun(), input.repo@, hash@, date@));
            out.push(Self { date, hash });
            i = i + 1;
        }
        assert(params_views(out@).map_values(|c: CommitView| c.hash) =~= crate::text::views(hashes@));
        Ok(out)
    }

    /// The first commit listed of each day between two dates, each dated.
    pub fn collect_daily_commits<F: Fn(&Invocation) -> Result<CommandOutput, RunError>>(
        input: &Input,
        after_date: Option<&str>,
        before_date: Option<&str>,
        runner: &mut Runner<F>,
    ) -> (res: Result<Vec<Params>, Error>)
        requires
            accepts_all(old(runner).fun()),
        ensures
            final(runner).fun() == old(runner).fun(),
            res matches Ok(v) ==> exists|all: Seq<Params>|
                #[trigger] keep_by_last(params_views(all), date_key()) == params_views(v@) && (forall|
                    i: int,
                | 0 <= i < all.len() ==> dated(old(runner).fun(), input.repo@, all[i].hash@, (#[trigger] all[i]).date@))
                    && exists|o| #[trigger]
                    ran(
                        old(runner).fun(),
                        hashes_inv(input.repo@, input.branch@, opt_str(after_date), opt_str(before_date)),
                        o,
                    ) && stdout_result(o) is Ok && params_views(all).map_values(|c: CommitView| c.hash)
                        == lines_of(stdout_result(o)->Ok_0),
            res matches Err(e) ==> dated_listing_err(
                old(runner).fun(),
                input.repo@,
                input.branch@,
                opt_str(after_date),
                opt_str(before_date),
                e,
            ),
    {
        let commits = Self::commits_between(input, after_date, before_date, runner)?;
        let ghost all = commits@;
        let mut as_commits: Vec<Commit> = Vec::new();
        let mut i: usize = 0;
        while i < commits.len()
            invariant
                i <= commits.len(),
                commit_views(as_commits@) == params_views(commits@).take(i as int),
            decreases commits.len() - i,
        {
            let c = Commit { hash: commits[i].hash.clone(), date: commits[i].date.clone() };
            let ghost old_c = as_commits@;
            as_commits.push(c);
            assert(commit_views(as_commits@) =~= commit_views(old_c).push(c@));
            assert(params_views(commits@).take(i as int + 1) =~= params_views(commits@).take(i as int).push(c@));
            i = i + 1;
        }
        assert(params_views(commits@).take(commits.len() as int) =~= params_views(commits@));
        let kept = keep_first_of_each_day(as_commits);
        let mut out: Vec<Params> = Vec::new();
        let mut k: usize = 0;
        while k < kept.len()
            invariant
                k <= kept.len(),
                params_views(out@) == commit_views(kept@).take(k as int),
            decreases kept.len() - k,
        {
            let p = Params { hash: kept[k].hash.clone(), date: kept[k].date.clone() };
            let ghost old_o = out@;
            out.push(p);
            assert(params_views(out@) =~= params_views(old_o).push(kept@[k as int]@));
            assert(commit_views(kept@).take(k as int + 1) =~= commit_views(kept@).take(k as int).push(kept@[k as int]@));
            k = k + 1;
        }
        assert(commit_views(kept@).take(kept.len() as int) =~= commit_views(kept@));
        assert(keep_by_last(params_views(all), date_key()) == params_views(out@));
        Ok(out)
    }
}

} // verus!
