//! Git queries that list commits by hash alone and read their dates
//! through `date`.
use vstd::prelude::*;
use crate::command::Runner;
use vstd::string::*;

use crate::command::{
    accepts_all, parsed_command, ran, sres, stdout_result, trimmed_result, Command, CommandOutput,
    CommandView, Invocation, InvocationView, RunError,
};
use crate::common::git::date_bounds;
use crate::error::Error;
use crate::text::{concat, lines, lines_of, opt_str, views};

verus! {

/// The command listing the hashes of `branch` between two dates.
pub open spec fn hashes_inv(
    repo: Seq<char>,
    branch: Seq<char>,
    after: Option<Seq<char>>,
    before: Option<Seq<char>>,
) -> InvocationView {
    let c = parsed_command("git -C "@ + repo + " log "@ + branch + " --pretty=format:%H"@);
    InvocationView::Single(CommandView { args: c.args + date_bounds(after, before), ..c })
}

/// `git -C repo show -s --format=%cs hash`, read from its text.
pub open spec fn show_date_inv(repo: Seq<char>, hash: Seq<char>) -> InvocationView {
    InvocationView::Single(parsed_command("git -C "@ + repo + " show -s --format=%cs "@ + hash))
}

/// `date -d date +%Y_%m_%d`, read from its text.
pub open spec fn fmt_date_inv(date: Seq<char>) -> InvocationView {
    InvocationView::Single(parsed_command("date -d "@ + date + " +%Y_%m_%d"@))
}

/// The hashes of the commits of `branch` between two dates, newest first.
pub fn get_commits_since<F: Fn(&Invocation) -> Result<CommandOutput, RunError>>(
    repo: &str,
    branch: &str,
    after_date: Option<&str>,
    before_date: Option<&str>,
    runner: &mut Runner<F>,
) -> (res: Result<Vec<String>, Error>)
    requires
        accepts_all(old(runner).fun()),
    ensures
        final(runner).fun() == old(runner).fun(),
        final(runner).log() == old(runner).log().push(hashes_inv(repo@, branch@, opt_str(after_date), opt_str(before_date))),
        exists|o| #[trigger]
            ran(old(runner).fun(), hashes_inv(repo@, branch@, opt_str(after_date), opt_str(before_date)), o)
                && (match (res, stdout_result(o)) {
                (Ok(v), Ok(s)) => views(v@) == lines_of(s),
                (Err(e1), Err(e2)) => e1 == e2,
                _ => false,
            }),
{
    let mut s = concat("git -C ", repo);
    s.append(" log ");
    s.append(branch);
    s.append(" --pretty=format:%H");
    let mut cmd = Command::parse(s.as_str());
    let ghost base = cmd@;
    if let Some(date) = after_date {
        cmd.add_arg(concat("--after=", date).as_str());
    }
    if let Some(date) = before_date {
        cmd.add_arg(concat("--before=", date).as_str());
    }
    assert(cmd@.args =~= base.args + date_bounds(opt_str(after_date), opt_str(before_date)));
    let output = cmd.run(runner)?;
    Ok(lines(output.as_str()))
}

/// The commit date of `hash` as git prints it.
fn date_of_commit_unformatted<F: Fn(&Invocation) -> Result<CommandOutput, RunError>>(
    repo: &str,
    hash: &str,
    runner: &mut Runner<F>,
) -> (res: Result<String, Error>)
    requires
        accepts_all(old(runner).fun()),
    ensures
        final(runner).fun() == old(runner).fun(),
        final(runner).log() == old(runner).log().push(show_date_inv(repo@, hash@)),
        exists|o| #[trigger] ran(old(runner).fun(), show_date_inv(repo@, hash@), o) && sres(res)
            == trimmed_result(o),
{
    let mut s = concat("git -C ", repo);
    s.append(" show -s --format=%cs ");
    s.append(hash);
    Command::parse(s.as_str()).run_trim(runner)
}

/// A date rewritten by `date` as `YYYY_MM_DD`.
fn fmt_date<F: Fn(&Invocation) -> Result<CommandOutput, RunError>>(
    unformatted_date: &str,
    runner: &mut Runner<F>,
) -> (res: Result<String, Error>)
    requires
        accepts_all(old(runner).fun()),
    ensures
        final(runner).fun() == old(runner).fun(),
        final(runner).log() == old(runner).log().push(fmt_date_inv(unformatted_date@)),
        exists|o| #[trigger] ran(old(runner).fun(), fmt_date_inv(unformatted_date@), o) && sres(res)
            == trimmed_result(o),
{
    let mut s = concat("date -d ", unformatted_date);
    s.append(" +%Y_%m_%d");
    Command::parse(s.as_str()).run_trim(runner)
}

/// What dating `hash` gave: git's date of the commit, rewritten by `date`,
/// or the first failure.
pub open spec fn commit_date_outcome<F: Fn(&Invocation) -> Result<CommandOutput, RunError>>(
    runner: F,
    repo: Seq<char>,
    hash: Seq<char>,
    r: Result<Seq<char>, Error>,
) -> bool {
    exists|o1| #[trigger]
        ran(runner, show_date_inv(repo, hash), o1) && match trimmed_result(o1) {
            Err(e) => r == Err::<Seq<char>, Error>(e),
            Ok(d) => exists|o2| #[trigger] ran(runner, fmt_date_inv(d), o2) && r == trimmed_result(o2),
        }
}

/// The commit date of `hash`, written `YYYY_MM_DD`.
pub fn date_of_commit<F: Fn(&Invocation) -> Result<CommandOutput, RunError>>(
    repo: &str,
    hash: &str,
    runner: &mut Runner<F>,
) -> (res: Result<String, Error>)
    requires
        accepts_all(old(runner).fun()),
    ensures
        final(runner).fun() == old(runner).fun(),
        exists|o1| #[trigger]
            ran(old(runner).fun(), show_date_inv(repo@, hash@), o1) && match trimmed_result(o1) {
                Err(e) => res == Err::<String, Error>(e) && final(runner).log() == old(runner).log().push(
                    show_date_inv(repo@, hash@),
                ),
                Ok(d) => final(runner).log() == old(runner).log().push(show_date_inv(repo@, hash@)).push(
                    fmt_date_inv(d),
                ) && exists|o2| #[trigger]
                    ran(old(runner).fun(), fmt_date_inv(d), o2) && sres(res) == trimmed_result(o2),
            },
        commit_date_outcome(old(runner).fun(), repo@, hash@, sres(res)),
{
    let date = date_of_commit_unformatted(repo, hash, runner)?;
    fmt_date(date.as_str(), runner)
}

} // verus!
