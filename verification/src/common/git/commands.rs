//! The git commands that the library runs, and how their output is read.
use vstd::prelude::*;
use crate::command::Runner;
use vstd::string::*;

use crate::command::{
    accepts_all, lemma_nonempty_pieces_concat, lemma_nonempty_pieces_last, parsed_command,
    parsed_pipeline, ran, sres, stdout_result, trimmed_result, Command, CommandOutput, CommandView,
    Invocation, InvocationView, PipedCommands, RunError,
};
use crate::error::Error;
use crate::folders::answered;
use crate::text::{
    concat, opt_str, lemma_split_on_concat, lemma_split_on_last, lines, lines_of, pair_views,
    replace_char, replace_char_spec, split, split_on, str_eq, trim, trim_spec,
};

verus! {

// ---------------------------------------------------------------------------
// The commands.
// ---------------------------------------------------------------------------

/// `git -C repo` followed by `rest`.
pub open spec fn git_in(repo: Seq<char>, rest: Seq<Seq<char>>) -> CommandView {
    CommandView {
        cmd: "git"@,
        args: seq!["-C"@, repo] + rest,
        envs: Seq::empty(),
        root: None,
    }
}

/// `git -C repo rev-parse --abbrev-ref HEAD`.
pub open spec fn current_branch_inv(repo: Seq<char>) -> InvocationView {
    InvocationView::Single(git_in(repo, seq!["rev-parse"@, "--abbrev-ref"@, "HEAD"@]))
}

/// `git -C repo rev-parse HEAD`.
pub open spec fn current_commit_inv(repo: Seq<char>) -> InvocationView {
    InvocationView::Single(git_in(repo, seq!["rev-parse"@, "HEAD"@]))
}

/// `git -C repo checkout hash`.
pub open spec fn checkout_inv(repo: Seq<char>, hash: Seq<char>) -> InvocationView {
    InvocationView::Single(git_in(repo, seq!["checkout"@, hash]))
}

/// `git -C repo switch branch`.
pub open spec fn switch_inv(repo: Seq<char>, branch: Seq<char>) -> InvocationView {
    InvocationView::Single(git_in(repo, seq!["switch"@, branch]))
}

/// The text of the pipeline listing the branches that contain `hash`.
pub open spec fn merged_text(repo: Seq<char>, hash: Seq<char>) -> Seq<char> {
    "git -C "@ + repo + " branch --contains "@ + hash + " --no-color|sed -E s/\\*//"@
}

/// `git -C repo branch --contains hash --no-color | sed -E s/\*//`, read as
/// a pipeline from its text.
pub open spec fn merged_inv(repo: Seq<char>, hash: Seq<char>) -> InvocationView {
    InvocationView::Piped(parsed_pipeline(merged_text(repo, hash)))
}

/// `git -C repo log rev --pretty=format:FORMAT`, read as a command from
/// its text.
pub open spec fn log_command(repo: Seq<char>, rev: Seq<char>, format: Seq<char>) -> CommandView {
    parsed_command("git -C "@ + repo + " log "@ + rev + " --pretty=format:"@ + format)
}

/// The command listing the commit date of `hash`.
pub open spec fn date_inv(repo: Seq<char>, hash: Seq<char>) -> InvocationView {
    InvocationView::Single(log_command(repo, hash, "%cs"@))
}

/// The command listing the commits of `branch` as `hash,date` lines.
pub open spec fn log_inv(repo: Seq<char>, branch: Seq<char>) -> InvocationView {
    InvocationView::Single(log_command(repo, branch, "%H,%cs"@))
}

/// The arguments that bound a log by dates.
pub open spec fn date_bounds(after: Option<Seq<char>>, before: Option<Seq<char>>) -> Seq<Seq<char>> {
    (match after {
        Some(d) => seq!["--after="@ + d],
        None => Seq::empty(),
    }) + (match before {
        Some(d) => seq!["--before="@ + d],
        None => Seq::empty(),
    })
}

/// The command listing the commits of `branch` between two dates.
pub open spec fn since_inv(
    repo: Seq<char>,
    branch: Seq<char>,
    after: Option<Seq<char>>,
    before: Option<Seq<char>>,
) -> InvocationView {
    let c = log_command(repo, branch, "%H,%cs"@);
    InvocationView::Single(CommandView { args: c.args + date_bounds(after, before), ..c })
}

/// `git -C repo remote -v | grep fetch`.
pub open spec fn remote_inv(repo: Seq<char>) -> InvocationView {
    InvocationView::Piped(
        seq![
            git_in(repo, seq!["remote"@, "-v"@]),
            CommandView { cmd: "grep"@, args: seq!["fetch"@], envs: Seq::empty(), root: None },
        ],
    )
}

/// `git -C repo pull`, read as a command from its text.
pub open spec fn pull_inv(repo: Seq<char>) -> InvocationView {
    InvocationView::Single(parsed_command("git -C "@ + repo + " pull"@))
}

/// `git -C repo` with `words` appended as arguments.
fn git_cmd(repo: &str, words: &[&str]) -> (c: Command)
    ensures
        c@ == git_in(repo@, words@.map_values(|w: &str| w@)),
{
    let mut c = Command::new("git");
    c.add_arg("-C");
    c.add_arg(repo);
    assert(c@.args =~= seq!["-C"@, repo@] + words@.map_values(|w: &str| w@).take(0));
    let mut i: usize = 0;
    while i < words.len()
        invariant
            i <= words.len(),
            c@ == git_in(repo@, words@.map_values(|w: &str| w@).take(i as int)),
        decreases words.len() - i,
    {
        c.add_arg(words[i]);
        assert(words@.map_values(|w: &str| w@).take(i as int + 1) =~= words@.map_values(
            |w: &str| w@,
        ).take(i as int).push(words@[i as int]@));
        assert(seq!["-C"@, repo@] + words@.map_values(|w: &str| w@).take(i as int + 1) =~= (seq![
            "-C"@,
            repo@,
        ] + words@.map_values(|w: &str| w@).take(i as int)).push(words@[i as int]@));
        i = i + 1;
    }
    assert(words@.map_values(|w: &str| w@).take(words.len() as int) =~= words@.map_values(
        |w: &str| w@,
    ));
    c
}

/// The log command as text.
fn log_text(repo: &str, rev: &str, format: &str) -> (s: String)
    ensures
        s@ == "git -C "@ + repo@ + " log "@ + rev@ + " --pretty=format:"@ + format@,
{
    let mut s = concat("git -C ", repo);
    s.append(" log ");
    s.append(rev);
    s.append(" --pretty=format:");
    s.append(format);
    s
}

// ---------------------------------------------------------------------------
// Reading output.
// ---------------------------------------------------------------------------

/// A pair result, by its views.
pub open spec fn pres(r: Result<(String, String), Error>) -> Result<(Seq<char>, Seq<char>), Error> {
    match r {
        Ok(p) => Ok((p.0@, p.1@)),
        Err(e) => Err(e),
    }
}

/// A result holding pairs, by their views.
pub open spec fn vres(r: Result<Vec<(String, String)>, Error>) -> Result<
    Seq<(Seq<char>, Seq<char>)>,
    Error,
> {
    match r {
        Ok(v) => Ok(pair_views(v@)),
        Err(e) => Err(e),
    }
}

/// A result without a value.
pub open spec fn discard(r: Result<Seq<char>, Error>) -> Result<(), Error> {
    match r {
        Ok(_) => Ok(()),
        Err(e) => Err(e),
    }
}

/// The first line of `s`; a text without lines is an error.
pub open spec fn first_line(s: Seq<char>) -> Result<Seq<char>, Error> {
    if lines_of(s).len() == 0 {
        Err(Error::EmptyOutput)
    } else {
        Ok(lines_of(s)[0])
    }
}

/// A `hash,date` line read as a pair; the date's `-`s become `_`s.
pub open spec fn commit_fields(line: Seq<char>) -> Result<(Seq<char>, Seq<char>), Error> {
    let p = split_on(line, ',');
    if p.len() < 2 {
        Err(Error::MissingDate)
    } else {
        Ok((p[0], replace_char_spec(p[1], '-', '_')))
    }
}

/// The lines of a log read as pairs, failing at the first line that cannot
/// be read.
pub open spec fn commit_list(ls: Seq<Seq<char>>) -> Result<Seq<(Seq<char>, Seq<char>)>, Error>
    decreases ls.len(),
{
    if ls.len() == 0 {
        Ok(Seq::empty())
    } else {
        match commit_list(ls.drop_last()) {
            Err(e) => Err(e),
            Ok(v) => match commit_fields(ls.last()) {
                Err(e) => Err(e),
                Ok(p) => Ok(v.push(p)),
            },
        }
    }
}

/// The first commit of a log's output.
pub open spec fn last_commit_result(r: Result<Seq<char>, Error>) -> Result<
    (Seq<char>, Seq<char>),
    Error,
> {
    match r {
        Err(e) => Err(e),
        Ok(s) => match first_line(s) {
            Err(e) => Err(e),
            Ok(l) => commit_fields(l),
        },
    }
}

/// All commits of a log's output.
pub open spec fn commits_result(r: Result<Seq<char>, Error>) -> Result<
    Seq<(Seq<char>, Seq<char>)>,
    Error,
> {
    match r {
        Err(e) => Err(e),
        Ok(s) => commit_list(lines_of(s)),
    }
}

/// Some line of `listing`, trimmed, is `branch`.
pub open spec fn branch_listed(listing: Seq<char>, branch: Seq<char>) -> bool {
    exists|i: int| 0 <= i < lines_of(listing).len() && #[trigger] trim_spec(lines_of(listing)[i]) == branch
}

/// Reads one `hash,date` line of `git log --pretty=format:%H,%cs`.
pub fn parse_commit_line(line: &str) -> (res: Result<(String, String), Error>)
    ensures
        pres(res) == commit_fields(line@),
{
    let parts = split(line, ',');
    if parts.len() < 2 {
        return Err(Error::MissingDate);
    }
    let hash = parts[0].clone();
    let date = replace_char(parts[1].as_str(), '-', '_');
    Ok((hash, date))
}

/// Reads every line of `git log --pretty=format:%H,%cs`.
pub fn parse_commit_log(output: &str) -> (res: Result<Vec<(String, String)>, Error>)
    ensures
        vres(res) == commit_list(lines_of(output@)),
{
    let ls = lines(output);
    let ghost all = lines_of(output@);
    let mut commits: Vec<(String, String)> = Vec::new();
    assert(all.take(0) =~= Seq::<Seq<char>>::empty());
    assert(pair_views(commits@) =~= Seq::<(Seq<char>, Seq<char>)>::empty());
    let mut i: usize = 0;
    while i < ls.len()
        invariant
            i <= ls.len(),
            ls@.map_values(|x: String| x@) == all,
            all == lines_of(output@),
            commit_list(all.take(i as int)) == Ok::<Seq<(Seq<char>, Seq<char>)>, Error>(
                pair_views(commits@),
            ),
        decreases ls.len() - i,
    {
        assert(all.take(i as int + 1).drop_last() =~= all.take(i as int));
        assert(all.take(i as int + 1).last() == ls@[i as int]@);
        let p = parse_commit_line(ls[i].as_str());
        match p {
            Err(e) => {
                proof {
                    lemma_commit_list_error_persists(all, i as int + 1);
                }
                assert(all.take(ls.len() as int) =~= all);
                return Err(e);
            },
            Ok(pair) => {
                let ghost old_c = commits@;
                commits.push(pair);
                assert(pair_views(commits@) =~= pair_views(old_c).push((pair.0@, pair.1@)));
            },
        }
        i = i + 1;
    }
    assert(all.take(ls.len() as int) =~= all);
    Ok(commits)
}

/// Once a prefix of the lines fails to read, every longer prefix fails with
/// the same error.
pub proof fn lemma_commit_list_error_persists(ls: Seq<Seq<char>>, k: int)
    requires
        0 <= k <= ls.len(),
        commit_list(ls.take(k)) is Err,
    ensures
        commit_list(ls) == commit_list(ls.take(k)),
    decreases ls.len() - k,
{
    if k == ls.len() {
        assert(ls.take(k) =~= ls);
    } else {
        assert(ls.take(k + 1).drop_last() =~= ls.take(k));
        lemma_commit_list_error_persists(ls, k + 1);
    }
}

/// Whether some line of `listing`, trimmed, is `branch`.
pub fn branch_in_listing(listing: &str, branch: &str) -> (found: bool)
    ensures
        found == branch_listed(listing@, branch@),
{
    let ls = lines(listing);
    let mut i: usize = 0;
    while i < ls.len()
        invariant
            i <= ls.len(),
            ls@.map_values(|x: String| x@) == lines_of(listing@),
            forall|j: int| 0 <= j < i ==> #[trigger] trim_spec(lines_of(listing@)[j]) != branch@,
        decreases ls.len() - i,
    {
        let t = trim(ls[i].as_str());
        assert(ls@[i as int]@ == lines_of(listing@)[i as int]);
        if str_eq(t.as_str(), branch) {
            return true;
        }
        i = i + 1;
    }
    false
}

/// The first line of `output`.
pub fn first_line_of(output: &str) -> (res: Result<String, Error>)
    ensures
        sres(res) == first_line(output@),
{
    let ls = lines(output);
    if ls.len() == 0 {
        return Err(Error::EmptyOutput);
    }
    assert(ls@[0]@ == lines_of(output@)[0]);
    Ok(ls[0].clone())
}

// ---------------------------------------------------------------------------
// The operations.
// ---------------------------------------------------------------------------

/// The branch the repository at `repo` has checked out.
pub fn read_current_branch<F: Fn(&Invocation) -> Result<CommandOutput, RunError>>(
    repo: &str,
    runner: &mut Runner<F>,
) -> (res: Result<String, Error>)
    requires
        accepts_all(old(runner).fun()),
    ensures
        final(runner).fun() == old(runner).fun(),
        final(runner).log() == old(runner).log().push(current_branch_inv(repo@)),
        exists|o| #[trigger] ran(old(runner).fun(), current_branch_inv(repo@), o) && sres(res)
            == trimmed_result(o),
{
    let cmd = git_cmd(repo, &["rev-parse", "--abbrev-ref", "HEAD"]);
    assert(["rev-parse", "--abbrev-ref", "HEAD"]@.map_values(|w: &str| w@) =~= seq![
        "rev-parse"@,
        "--abbrev-ref"@,
        "HEAD"@,
    ]);
    cmd.run_trim(runner)
}

/// The pipeline listing the branches that contain `hash`.
fn merged_pipeline(repo: &str, hash: &str) -> (p: PipedCommands)
    ensures
        p@ == parsed_pipeline(merged_text(repo@, hash@)),
        p@.len() >= 2,
{
    let mut s = concat("git -C ", repo);
    s.append(" branch --contains ");
    s.append(hash);
    s.append(" --no-color|sed -E s/\\*//");
    proof {
        let a = "git -C "@ + repo@ + " branch --contains "@ + hash@ + " --no-color"@;
        let b = "sed -E s/\\*//"@;
        reveal_strlit(" --no-color|sed -E s/\\*//");
        reveal_strlit(" --no-color");
        reveal_strlit("sed -E s/\\*//");
        assert(" --no-color|sed -E s/\\*//"@ =~= " --no-color"@ + seq!['|'] + b);
        assert(merged_text(repo@, hash@) =~= a + seq!['|'] + b);
        lemma_split_on_concat(a, '|', b);
        lemma_nonempty_pieces_concat(split_on(a, '|'), split_on(b, '|'));
        assert(a.last() == 'r');
        lemma_split_on_last(a, '|');
        crate::text::lemma_split_on_nonempty(a, '|');
        lemma_nonempty_pieces_last(split_on(a, '|'));
        assert(b.last() == '/');
        lemma_split_on_last(b, '|');
        crate::text::lemma_split_on_nonempty(b, '|');
        lemma_nonempty_pieces_last(split_on(b, '|'));
    }
    PipedCommands::parse(s.as_str())
}

/// The branches that contain `hash`, one per line.
pub fn commit_merged_to<F: Fn(&Invocation) -> Result<CommandOutput, RunError>>(
    repo: &str,
    hash: &str,
    runner: &mut Runner<F>,
) -> (res: Result<String, Error>)
    requires
        accepts_all(old(runner).fun()),
    ensures
        final(runner).fun() == old(runner).fun(),
        final(runner).log() == old(runner).log().push(merged_inv(repo@, hash@)),
        exists|o| #[trigger] ran(old(runner).fun(), merged_inv(repo@, hash@), o) && sres(res)
            == stdout_result(o),
{
    let p = merged_pipeline(repo, hash);
    p.run(runner)
}

/// Whether the commit `hash` was merged into `branch`.
pub fn was_commit_merged_to_branch<F: Fn(&Invocation) -> Result<CommandOutput, RunError>>(
    repo: &str,
    branch: &str,
    hash: &str,
    runner: &mut Runner<F>,
) -> (res: Result<bool, Error>)
    requires
        accepts_all(old(runner).fun()),
    ensures
        final(runner).fun() == old(runner).fun(),
        final(runner).log() == old(runner).log().push(merged_inv(repo@, hash@)),
        exists|o| #[trigger]
            ran(old(runner).fun(), merged_inv(repo@, hash@), o) && res == (match stdout_result(o) {
                Ok(s) => Ok(branch_listed(s, branch@)),
                Err(e) => Err(e),
            }),
{
    let output = commit_merged_to(repo, hash, runner)?;
    Ok(branch_in_listing(output.as_str(), branch))
}

/// The commit the repository at `repo` has checked out.
pub fn read_current_commit<F: Fn(&Invocation) -> Result<CommandOutput, RunError>>(
    repo: &str,
    runner: &mut Runner<F>,
) -> (res: Result<String, Error>)
    requires
        accepts_all(old(runner).fun()),
    ensures
        final(runner).fun() == old(runner).fun(),
        final(runner).log() == old(runner).log().push(current_commit_inv(repo@)),
        exists|o| #[trigger] ran(old(runner).fun(), current_commit_inv(repo@), o) && sres(res)
            == trimmed_result(o),
{
    let cmd = git_cmd(repo, &["rev-parse", "HEAD"]);
    assert(["rev-parse", "HEAD"]@.map_values(|w: &str| w@) =~= seq!["rev-parse"@, "HEAD"@]);
    cmd.run_trim(runner)
}

/// Checks out the commit `hash`.
pub fn checkout_commit<F: Fn(&Invocation) -> Result<CommandOutput, RunError>>(
    repo: &str,
    hash: &str,
    runner: &mut Runner<F>,
) -> (res: Result<(), Error>)
    requires
        accepts_all(old(runner).fun()),
    ensures
        final(runner).fun() == old(runner).fun(),
        final(runner).log() == old(runner).log().push(checkout_inv(repo@, hash@)),
        exists|o| #[trigger] ran(old(runner).fun(), checkout_inv(repo@, hash@), o) && res == discard(
            stdout_result(o),
        ),
{
    let cmd = git_cmd(repo, &["checkout", hash]);
    assert(["checkout", hash]@.map_values(|w: &str| w@) =~= seq!["checkout"@, hash@]);
    cmd.run(runner)?;
    Ok(())
}

/// Switches the repository to `branch`.
pub fn switch_branch<F: Fn(&Invocation) -> Result<CommandOutput, RunError>>(
    repo: &str,
    branch: &str,
    runner: &mut Runner<F>,
) -> (res: Result<(), Error>)
    requires
        accepts_all(old(runner).fun()),
    ensures
        final(runner).fun() == old(runner).fun(),
        final(runner).log() == old(runner).log().push(switch_inv(repo@, branch@)),
        exists|o| #[trigger] ran(old(runner).fun(), switch_inv(repo@, branch@), o) && res == discard(
            stdout_result(o),
        ),
{
    let cmd = git_cmd(repo, &["switch", branch]);
    assert(["switch", branch]@.map_values(|w: &str| w@) =~= seq!["switch"@, branch@]);
    let _res = cmd.run(runner)?;
    Ok(())
}

/// The commit date of `hash`, as git prints it (`YYYY-MM-DD`): the first
/// line of git's output. Where git succeeds but prints nothing, the result
/// is `Error::EmptyOutput` rather than a panic.
pub fn get_date<F: Fn(&Invocation) -> Result<CommandOutput, RunError>>(
    repo: &str,
    hash: &str,
    runner: &mut Runner<F>,
) -> (res: Result<String, Error>)
    requires
        accepts_all(old(runner).fun()),
    ensures
        final(runner).fun() == old(runner).fun(),
        final(runner).log() == old(runner).log().push(date_inv(repo@, hash@)),
        exists|o| #[trigger]
            ran(old(runner).fun(), date_inv(repo@, hash@), o) && sres(res) == (match stdout_result(o) {
                Ok(s) => first_line(s),
                Err(e) => Err(e),
            }),
{
    let cmd = Command::parse(log_text(repo, hash, "%cs").as_str());
    let output = cmd.run(runner)?;
    first_line_of(output.as_str())
}

/// The newest commit of `branch`, as `(hash, date)` with the date written
/// `YYYY_MM_DD`.
pub fn get_last_commit<F: Fn(&Invocation) -> Result<CommandOutput, RunError>>(
    repo: &str,
    branch: &str,
    runner: &mut Runner<F>,
) -> (res: Result<(String, String), Error>)
    requires
        accepts_all(old(runner).fun()),
    ensures
        final(runner).fun() == old(runner).fun(),
        final(runner).log() == old(runner).log().push(log_inv(repo@, branch@)),
        exists|o| #[trigger] ran(old(runner).fun(), log_inv(repo@, branch@), o) && pres(res)
            == last_commit_result(stdout_result(o)),
{
    let cmd = Command::parse(log_text(repo, branch, "%H,%cs").as_str());
    let output = cmd.run(runner)?;
    let line = first_line_of(output.as_str())?;
    parse_commit_line(line.as_str())
}

/// The commits of `branch`, newest first, as `(hash, date)` pairs,
/// restricted to the dates after `after_date` and before `before_date`.
pub fn get_commits_since<F: Fn(&Invocation) -> Result<CommandOutput, RunError>>(
    repo: &str,
    branch: &str,
    after_date: Option<&str>,
    before_date: Option<&str>,
    runner: &mut Runner<F>,
) -> (res: Result<Vec<(String, String)>, Error>)
    requires
        accepts_all(old(runner).fun()),
    ensures
        final(runner).fun() == old(runner).fun(),
        final(runner).log() == old(runner).log().push(since_inv(repo@, branch@, opt_str(after_date), opt_str(before_date))),
        exists|o| #[trigger]
            ran(
                old(runner).fun(),
                since_inv(
                    repo@,
                    branch@,
                    opt_str(after_date),
                    opt_str(before_date),
                ),
                o,
            ) && vres(res) == commits_result(stdout_result(o)),
{
    let mut cmd = Command::parse(log_text(repo, branch, "%H,%cs").as_str());
    let ghost base = cmd@;
    if let Some(date) = after_date {
        cmd.add_arg(concat("--after=", date).as_str());
    }
    if let Some(date) = before_date {
        cmd.add_arg(concat("--before=", date).as_str());
    }
    let ghost a = opt_str(after_date);
    let ghost b = opt_str(before_date);
    assert(cmd@.args =~= base.args + date_bounds(a, b));
    let output = cmd.run(runner)?;
    parse_commit_log(output.as_str())
}

/// The url that the repository at `repo` fetches from, as `git remote -v`
/// prints it; fails when `path_exists` says that `repo` does not exist.
pub fn read_repo_url<
    F: Fn(&Invocation) -> Result<CommandOutput, RunError>,
    E: Fn(&str) -> bool,
>(repo: &str, runner: &mut Runner<F>, path_exists: &E) -> (res: Result<String, Error>)
    requires
        accepts_all(old(runner).fun()),
        forall|p: &str| call_requires(*path_exists, (p,)),
    ensures
        final(runner).fun() == old(runner).fun(),
        exists|b: bool, o| #[trigger]
            answered(*path_exists, repo@, b) && #[trigger] repo_url_outcome(old(runner).fun(), repo@, b, o, sres(res))
                && final(runner).log() == (if b {
                old(runner).log().push(remote_inv(repo@))
            } else {
                old(runner).log()
            }),
{
    let b = path_exists(repo);
    if !b {
        let ghost o: Result<CommandOutput, RunError> = arbitrary();
        assert(answered(*path_exists, repo@, b) && repo_url_outcome(
            old(runner).fun(),
            repo@,
            b,
            o,
            sres(Err::<String, Error>(Error::RepositoryMissing)),
        ));
        return Err(Error::RepositoryMissing);
    }
    let git_remote_v = git_cmd(repo, &["remote", "-v"]);
    assert(["remote", "-v"]@.map_values(|w: &str| w@) =~= seq!["remote"@, "-v"@]);
    let mut grep = Command::new("grep");
    grep.add_arg("fetch");
    let pipe = PipedCommands::new(vec![git_remote_v, grep]);
    assert(pipe@ =~= seq![
        git_in(repo@, seq!["remote"@, "-v"@]),
        CommandView { cmd: "grep"@, args: seq!["fetch"@], envs: Seq::empty(), root: None },
    ]);
    let res = pipe.run_trim(runner);
    proof {
        let o = choose|o| #[trigger] ran(old(runner).fun(), InvocationView::Piped(pipe@), o) && sres(res)
            == trimmed_result(o);
        assert(answered(*path_exists, repo@, b) && repo_url_outcome(old(runner).fun(), repo@, b, o, sres(res)));
    }
    res
}

/// What reading the remote url gives, when the existence check answered
/// `found` and the remote listing answered `o`: a missing repository is an
/// error; otherwise the listing was run and its trimmed output is the
/// answer.
pub open spec fn repo_url_outcome<F: Fn(&Invocation) -> Result<CommandOutput, RunError>>(
    runner: F,
    repo: Seq<char>,
    found: bool,
    o: Result<CommandOutput, RunError>,
    res: Result<Seq<char>, Error>,
) -> bool {
    if found {
        ran(runner, remote_inv(repo), o) && res == trimmed_result(o)
    } else {
        res == Err::<Seq<char>, Error>(Error::RepositoryMissing)
    }
}

/// Checks that the repository at `repo` fetches from `expected_url`.
pub fn verify_repository<
    F: Fn(&Invocation) -> Result<CommandOutput, RunError>,
    E: Fn(&str) -> bool,
>(repo: &str, expected_url: &str, runner: &mut Runner<F>, path_exists: &E) -> (res: Result<(), Error>)
    requires
        accepts_all(old(runner).fun()),
        forall|p: &str| call_requires(*path_exists, (p,)),
    ensures
        final(runner).fun() == old(runner).fun(),
        exists|b: bool, o, u: Result<Seq<char>, Error>| #[trigger]
            answered(*path_exists, repo@, b) && #[trigger] repo_url_outcome(old(runner).fun(), repo@, b, o, u)
                && res == (match u {
                Ok(url) => if url == expected_url@ {
                    Ok(())
                } else {
                    Err(Error::UrlMismatch)
                },
                Err(e) => Err(e),
            }) && final(runner).log() == (if b {
                old(runner).log().push(remote_inv(repo@))
            } else {
                old(runner).log()
            }),
{
    let url = read_repo_url(repo, runner, path_exists)?;
    if !str_eq(url.as_str(), expected_url) {
        return Err(Error::UrlMismatch);
    }
    Ok(())
}

/// Pulls the current branch; gives git's trimmed answer.
pub fn pull<F: Fn(&Invocation) -> Result<CommandOutput, RunError>>(repo: &str, runner: &mut Runner<F>) -> (res:
    Result<String, Error>)
    requires
        accepts_all(old(runner).fun()),
    ensures
        final(runner).fun() == old(runner).fun(),
        final(runner).log() == old(runner).log().push(pull_inv(repo@)),
        exists|o| #[trigger] ran(old(runner).fun(), pull_inv(repo@), o) && sres(res) == trimmed_result(o),
{
    let mut s = concat("git -C ", repo);
    s.append(" pull");
    Command::parse(s.as_str()).run_trim(runner)
}

} // verus!
