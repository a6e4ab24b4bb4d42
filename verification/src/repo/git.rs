//! Git queries on a repository path: its branch, and its commits read from
//! the text of `git log`.
use vstd::prelude::*;
use crate::command::Runner;

pub use crate::common::git::read_current_commit;

use super::commit::{commit_views, Commit, CommitView};
use crate::command::{
    accepts_all, gave, gave_trimmed, ran, sres, stdout_result, trimmed_result, Command, CommandOutput, CommandView,
    Invocation, InvocationView, PipedCommands, RunError,
};
use crate::common::git::git_in;
use crate::error::Error;
use crate::text::{concat, lines, lines_of, to_string};

verus! {

/// `git -C repo symbolic-ref --short HEAD`.
pub open spec fn symbolic_branch_inv(repo: Seq<char>) -> InvocationView {
    InvocationView::Single(git_in(repo, seq!["symbolic-ref"@, "--short"@, "HEAD"@]))
}

/// The branch the repository at `repo` has checked out, as
/// `git symbolic-ref` names it.
pub fn read_current_branch<F: Fn(&Invocation) -> Result<CommandOutput, RunError>>(
    repo: &str,
    runner: &mut Runner<F>,
) -> (res: Result<String, Error>)
    requires
        accepts_all(old(runner).fun()),
    ensures
        final(runner).fun() == old(runner).fun(),
        final(runner).log() == old(runner).log().push(symbolic_branch_inv(repo@)),
        exists|o| #[trigger] ran(old(runner).fun(), symbolic_branch_inv(repo@), o) && sres(res) == trimmed_result(o),
{
    let mut cmd = Command::new("git");
    cmd.add_arg("-C");
    cmd.add_arg(repo);
    cmd.add_arg("symbolic-ref");
    cmd.add_arg("--short");
    cmd.add_arg("HEAD");
    assert(cmd@.args =~= git_in(repo@, seq!["symbolic-ref"@, "--short"@, "HEAD"@]).args);
    cmd.run_trim(runner)
}

/// `git -C repo log branch --after=date`.
pub open spec fn log_after_cmd(repo: Seq<char>, branch: Seq<char>, date: Seq<char>) -> CommandView {
    git_in(repo, seq!["log"@, branch, "--after="@ + date])
}

/// `echo text`, with the text as one argument.
pub open spec fn echo_cmd(text: Seq<char>) -> CommandView {
    CommandView { cmd: "echo"@, args: seq![text], envs: Seq::empty(), root: None }
}

/// A command with one argument.
pub open spec fn cmd1(cmd: Seq<char>, arg: Seq<char>) -> CommandView {
    CommandView { cmd, args: seq![arg], envs: Seq::empty(), root: None }
}

/// The pipeline picking the dates out of the log `log`: `Date` lines,
/// rearranged by awk as `2023 Aug 02`.
pub open spec fn dates_pipeline(log: Seq<char>) -> Seq<CommandView> {
    seq![echo_cmd(log), cmd1("grep"@, "Date"@), cmd1("awk"@, "{print $4, $3, $6}"@)]
}

/// The pipeline picking the hashes out of the log `log`.
pub open spec fn hashes_pipeline(log: Seq<char>) -> Seq<CommandView> {
    seq![echo_cmd(log), cmd1("grep"@, "commit"@), cmd1("awk"@, "{print $2}"@)]
}

/// `date -d date +%Y_%m_%d`, with the date as one argument.
pub open spec fn date_cmd(date: Seq<char>) -> CommandView {
    CommandView {
        cmd: "date"@,
        args: seq!["-d"@, date, "+%Y_%m_%d"@],
        envs: Seq::empty(),
        root: None,
    }
}

/// The lines of the dates and of the hashes picked out of the log: the
/// commits are their pairs, as many as the shorter list has.
pub open spec fn paired(dates: Seq<Seq<char>>, hashes: Seq<Seq<char>>) -> nat {
    if dates.len() < hashes.len() {
        dates.len()
    } else {
        hashes.len()
    }
}

fn command_with(cmd: &str, arg: &str) -> (c: Command)
    ensures
        c@ == cmd1(cmd@, arg@),
{
    let mut c = Command::new(cmd);
    c.add_arg(arg);
    assert(c@.args =~= seq![arg@]);
    c
}

/// The `date` commands that rewrite the first `n` date lines of `ds`.
pub open spec fn date_runs(ds: Seq<char>, n: nat) -> Seq<InvocationView> {
    Seq::new(n, |i: int| InvocationView::Single(date_cmd(lines_of(ds)[i])))
}

/// What listing the commits of `branch` after `date` hands to the runner,
/// in order, when the log read is `l` and the pipelines give `ds` and `hs`:
/// the log command, the dates pipeline, the hashes pipeline, then one
/// `date` command for each pair of lines.
pub open spec fn since_runs(
    repo: Seq<char>,
    branch: Seq<char>,
    date: Seq<char>,
    l: Seq<char>,
    ds: Seq<char>,
    hs: Seq<char>,
) -> Seq<InvocationView> {
    seq![
        InvocationView::Single(log_after_cmd(repo, branch, date)),
        InvocationView::Piped(dates_pipeline(l)),
        InvocationView::Piped(hashes_pipeline(l)),
    ] + date_runs(ds, paired(lines_of(ds), lines_of(hs)))
}

/// `v` is what listing the commits of `branch` after `date` gave: the log
/// `l`, its dates `ds` and hashes `hs` picked out by the two pipelines, and
/// one commit for each pair of a date line and a hash line, with the hash,
/// the branch, and the date as `date` rewrote it. The runner's log went
/// from `before` to `after` by [`since_runs`].
pub open spec fn commits_since_ok<F: Fn(&Invocation) -> Result<CommandOutput, RunError>>(
    runner: F,
    repo: Seq<char>,
    branch: Seq<char>,
    date: Seq<char>,
    before: Seq<InvocationView>,
    after: Seq<InvocationView>,
    v: Seq<CommitView>,
) -> bool {
    exists|l: Seq<char>, ds: Seq<char>, hs: Seq<char>|
        #![trigger gave(runner, InvocationView::Single(log_after_cmd(repo, branch, date)), Ok::<Seq<char>, Error>(l)), gave(runner, InvocationView::Piped(dates_pipeline(l)), Ok::<Seq<char>, Error>(ds)), gave(runner, InvocationView::Piped(hashes_pipeline(l)), Ok::<Seq<char>, Error>(hs))]
        gave(runner, InvocationView::Single(log_after_cmd(repo, branch, date)), Ok::<Seq<char>, Error>(l))
            && gave(runner, InvocationView::Piped(dates_pipeline(l)), Ok::<Seq<char>, Error>(ds))
            && gave(runner, InvocationView::Piped(hashes_pipeline(l)), Ok::<Seq<char>, Error>(hs))
            && after == before + since_runs(repo, branch, date, l, ds, hs)
            && v.len() == paired(lines_of(ds), lines_of(hs))
            && forall|i: int|
            0 <= i < v.len() ==> {
                &&& (#[trigger] v[i]).hash == lines_of(hs)[i]
                &&& v[i].branch == branch
                &&& gave_trimmed(
                    runner,
                    InvocationView::Single(date_cmd(lines_of(ds)[i])),
                    Ok::<Seq<char>, Error>(v[i].date),
                )
            }
}

/// `e` is the first failure met while listing the commits of `branch` after
/// `date`: of the log, of the dates pipeline, of the hashes pipeline, or of
/// `date` on one of the paired date lines. The runner's log went from
/// `before` to `after` by the commands up to the one that failed.
pub open spec fn commits_since_err<F: Fn(&Invocation) -> Result<CommandOutput, RunError>>(
    runner: F,
    repo: Seq<char>,
    branch: Seq<char>,
    date: Seq<char>,
    before: Seq<InvocationView>,
    after: Seq<InvocationView>,
    e: Error,
) -> bool {
    let log = InvocationView::Single(log_after_cmd(repo, branch, date));
    ||| gave(runner, log, Err::<Seq<char>, Error>(e)) && after == before.push(log)
    ||| exists|l: Seq<char>|
        #[trigger] gave(runner, log, Ok::<Seq<char>, Error>(l)) && {
            ||| gave(runner, InvocationView::Piped(dates_pipeline(l)), Err::<Seq<char>, Error>(e))
                && after == before.push(log).push(InvocationView::Piped(dates_pipeline(l)))
            ||| exists|ds: Seq<char>|
                #[trigger] gave(runner, InvocationView::Piped(dates_pipeline(l)), Ok::<Seq<char>, Error>(ds))
                    && {
                    ||| gave(runner, InvocationView::Piped(hashes_pipeline(l)), Err::<Seq<char>, Error>(e))
                        && after == before.push(log).push(InvocationView::Piped(dates_pipeline(l))).push(
                        InvocationView::Piped(hashes_pipeline(l)),
                    )
                    ||| exists|hs: Seq<char>|
                        #[trigger] gave(
                            runner,
                            InvocationView::Piped(hashes_pipeline(l)),
                            Ok::<Seq<char>, Error>(hs),
                        ) && exists|i: int|
                            0 <= i < paired(lines_of(ds), lines_of(hs)) && #[trigger] gave_trimmed(
                                runner,
                                InvocationView::Single(date_cmd(lines_of(ds)[i])),
                                Err::<Seq<char>, Error>(e),
                            ) && after == before + since_runs(repo, branch, date, l, ds, hs).take(4 + i)
                }
        }
}

/// The commits of `branch` after `date`, newest first: the log is read once,
/// its dates and hashes picked out by two pipelines, and each date rewritten
/// as `YYYY_MM_DD` by `date`.
pub fn get_commits_since<F: Fn(&Invocation) -> Result<CommandOutput, RunError>>(
    repo: &str,
    branch: &str,
    date: &str,
    runner: &mut Runner<F>,
) -> (res: Result<Vec<Commit>, Error>)
    requires
        accepts_all(old(runner).fun()),
    ensures
        final(runner).fun() == old(runner).fun(),
        res matches Ok(v) ==> commits_since_ok(
            old(runner).fun(),
            repo@,
            branch@,
            date@,
            old(runner).log(),
            final(runner).log(),
            commit_views(v@),
        ),
        res matches Err(e) ==> commits_since_err(
            old(runner).fun(),
            repo@,
            branch@,
            date@,
            old(runner).log(),
            final(runner).log(),
            e,
        ),
{
    let ghost log = InvocationView::Single(log_after_cmd(repo@, branch@, date@));
    let mut git_after = Command::new("git");
    git_after.add_arg("-C");
    git_after.add_arg(repo);
    git_after.add_arg("log");
    git_after.add_arg(branch);
    git_after.add_arg(concat("--after=", date).as_str());
    assert(git_after@.args =~= log_after_cmd(repo@, branch@, date@).args);
    let r1 = git_after.run(runner);
    assert(gave(old(runner).fun(), log, sres(r1)));
    let git_after_output = match r1 {
        Ok(x) => x,
        Err(e) => {
            return Err(e);
        },
    };
    let ghost l = git_after_output@;
    let echo = command_with("echo", git_after_output.as_str());
    let dates_p = PipedCommands::new(
        vec![echo.duplicate(), command_with("grep", "Date"), command_with("awk", "{print $4, $3, $6}")],
    );
    assert(dates_p@ =~= dates_pipeline(git_after_output@));
    let r2 = dates_p.run(runner);
    assert(gave(old(runner).fun(), InvocationView::Piped(dates_pipeline(l)), sres(r2)));
    let dates = match r2 {
        Ok(x) => x,
        Err(e) => {
            assert(gave(old(runner).fun(), log, Ok::<Seq<char>, Error>(l)));
            return Err(e);
        },
    };
    let hashes_p = PipedCommands::new(
        vec![echo, command_with("grep", "commit"), command_with("awk", "{print $2}")],
    );
    assert(hashes_p@ =~= hashes_pipeline(git_after_output@));
    let r3 = hashes_p.run(runner);
    assert(gave(old(runner).fun(), InvocationView::Piped(hashes_pipeline(l)), sres(r3)));
    let hashes = match r3 {
        Ok(x) => x,
        Err(e) => {
            assert(gave(old(runner).fun(), log, Ok::<Seq<char>, Error>(l)));
            assert(gave(old(runner).fun(), InvocationView::Piped(dates_pipeline(l)), Ok::<Seq<char>, Error>(dates@)));
            return Err(e);
        },
    };
    proof {
        assert(gave(old(runner).fun(), log, Ok::<Seq<char>, Error>(l)));
        assert(gave(old(runner).fun(), InvocationView::Piped(dates_pipeline(l)), Ok::<Seq<char>, Error>(dates@)));
        assert(gave(old(runner).fun(), InvocationView::Piped(hashes_pipeline(l)), Ok::<Seq<char>, Error>(hashes@)));
    }
    let ghost base = runner.log();
    assert(base == old(runner).log() + seq![
        log,
        InvocationView::Piped(dates_pipeline(l)),
        InvocationView::Piped(hashes_pipeline(l)),
    ]);
    let ds = lines(dates.as_str());
    let hs = lines(hashes.as_str());
    let n = if ds.len() < hs.len() {
        ds.len()
    } else {
        hs.len()
    };
    proof {
        assert(ds@.len() == lines_of(dates@).len());
        assert(hs@.len() == lines_of(hashes@).len());
        assert forall|k: int| 0 <= k < n implies ds@[k]@ == lines_of(dates@)[k] && hs@[k]@ == lines_of(
            hashes@,
        )[k] by {
            assert(ds@.map_values(|x: String| x@)[k] == ds@[k]@);
            assert(hs@.map_values(|x: String| x@)[k] == hs@[k]@);
        }
    }
    let mut commits: Vec<Commit> = Vec::new();
    let mut i: usize = 0;
    while i < n
        invariant
            i <= n,
            n <= ds.len(),
            n <= hs.len(),
            accepts_all(old(runner).fun()),
            runner.fun() == old(runner).fun(),
            commits.len() == i,
            n == paired(lines_of(dates@), lines_of(hashes@)),
            log == InvocationView::Single(log_after_cmd(repo@, branch@, date@)),
            base == old(runner).log() + seq![
                log,
                InvocationView::Piped(dates_pipeline(l)),
                InvocationView::Piped(hashes_pipeline(l)),
            ],
            runner.log() == base + date_runs(dates@, i as nat),
            forall|k: int| 0 <= k < n ==> ds@[k]@ == lines_of(dates@)[k] && hs@[k]@ == lines_of(hashes@)[k],
            gave(old(runner).fun(), log, Ok::<Seq<char>, Error>(l)),
            gave(old(runner).fun(), InvocationView::Piped(dates_pipeline(l)), Ok::<Seq<char>, Error>(dates@)),
            gave(old(runner).fun(), InvocationView::Piped(hashes_pipeline(l)), Ok::<Seq<char>, Error>(hashes@)),
            forall|k: int|
                0 <= k < i ==> {
                    &&& (#[trigger] commits@[k])@.hash == lines_of(hashes@)[k]
                    &&& commits@[k]@.branch == branch@
                    &&& gave_trimmed(
                        old(runner).fun(),
                        InvocationView::Single(date_cmd(lines_of(dates@)[k])),
                        Ok::<Seq<char>, Error>(commits@[k]@.date),
                    )
                },
        decreases n - i,
    {
        let mut cmd = Command::new("date");
        cmd.add_arg("-d");
        cmd.add_arg(ds[i].as_str());
        cmd.add_arg("+%Y_%m_%d");
        assert(cmd@.args =~= seq!["-d"@, ds@[i as int]@, "+%Y_%m_%d"@]);
        assert(cmd@ == date_cmd(lines_of(dates@)[i as int]));
        let rd = cmd.run_trim(runner);
        assert(date_runs(dates@, (i + 1) as nat) =~= date_runs(dates@, i as nat).push(
            InvocationView::Single(date_cmd(lines_of(dates@)[i as int])),
        ));
        assert(runner.log() =~= base + date_runs(dates@, (i + 1) as nat));
        assert(gave_trimmed(old(runner).fun(), InvocationView::Single(date_cmd(lines_of(dates@)[i as int])), sres(rd)));
        let d = match rd {
            Ok(x) => x,
            Err(e) => {
                assert(gave_trimmed(
                    old(runner).fun(),
                    InvocationView::Single(date_cmd(lines_of(dates@)[i as int])),
                    Err::<Seq<char>, Error>(e),
                ));
                assert(since_runs(repo@, branch@, date@, l, dates@, hashes@).take(4 + i) =~= seq![
                    log,
                    InvocationView::Piped(dates_pipeline(l)),
                    InvocationView::Piped(hashes_pipeline(l)),
                ] + date_runs(dates@, (i + 1) as nat));
                assert(runner.log() =~= old(runner).log() + since_runs(repo@, branch@, date@, l, dates@, hashes@).take(
                    4 + i,
                ));
                return Err(e);
            },
        };
        let h = hs[i].clone();
        let ghost dv = d@;
        let c = Commit::from_tuple((h, d, to_string(branch)));
        assert(c@.hash == lines_of(hashes@)[i as int] && c@.date == dv && c@.branch == branch@);
        let ghost before = commits@;
        commits.push(c);
        assert forall|k: int| 0 <= k < i + 1 implies {
            &&& (#[trigger] commits@[k])@.hash == lines_of(hashes@)[k]
            &&& commits@[k]@.branch == branch@
            &&& gave_trimmed(
                old(runner).fun(),
                InvocationView::Single(date_cmd(lines_of(dates@)[k])),
                Ok::<Seq<char>, Error>(commits@[k]@.date),
            )
        } by {
            if k < i {
                assert(commits@[k] == before[k]);
            }
        }
        i = i + 1;
    }
    proof {
        assert(since_runs(repo@, branch@, date@, l, dates@, hashes@) =~= seq![
            log,
            InvocationView::Piped(dates_pipeline(l)),
            InvocationView::Piped(hashes_pipeline(l)),
        ] + date_runs(dates@, n as nat));
        assert(runner.log() =~= old(runner).log() + since_runs(repo@, branch@, date@, l, dates@, hashes@));
        let cv = commit_views(commits@);
        assert forall|k: int| 0 <= k < cv.len() implies {
            &&& (#[trigger] cv[k]).hash == lines_of(hashes@)[k]
            &&& cv[k].branch == branch@
            &&& gave_trimmed(
                old(runner).fun(),
                InvocationView::Single(date_cmd(lines_of(dates@)[k])),
                Ok::<Seq<char>, Error>(cv[k].date),
            )
        } by {
            assert(cv[k] == commits@[k]@);
        }
    }
    Ok(commits)
}

} // verus!
