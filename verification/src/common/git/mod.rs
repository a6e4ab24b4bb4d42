//! Commits of a git repository.
use vstd::prelude::*;
use crate::command::Runner;

mod commands;

pub use commands::{
    branch_in_listing, branch_listed, checkout_commit, checkout_inv, commit_fields, commit_list,
    commit_merged_to, commits_result, current_branch_inv, current_commit_inv, date_bounds,
    date_inv, discard, first_line, first_line_of, get_date, git_in, last_commit_result,
    lemma_commit_list_error_persists, log_command, log_inv, merged_inv, merged_text,
    parse_commit_line, parse_commit_log, pres, pull, pull_inv, read_current_branch,
    read_current_commit, read_repo_url, remote_inv, repo_url_outcome, since_inv, switch_branch,
    switch_inv, verify_repository, vres, was_commit_merged_to_branch,
};

use crate::command::{accepts_all, ran, stdout_result, CommandOutput, Invocation, InvocationView, RunError};
use crate::error::Error;
use crate::text::{byte_prefix, chars_of, decimal, format_decimal, lines_of, opt_str, pair_views, push_char, trim_spec};
use chrono::Datelike;

verus! {

/// A calendar date.
#[derive(Clone, Copy, Debug, PartialEq, Eq, Structural)]
pub struct Date {
    pub year: i32,
    pub month: u32,
    pub day: u32,
}

impl Date {
    /// `self` comes before `other` in the calendar.
    pub open spec fn before(self, other: Date) -> bool {
        self.year < other.year || (self.year == other.year && (self.month < other.month || (
        self.month == other.month && self.day < other.day)))
    }

    /// `self` comes before `other` in the calendar.
    pub fn is_before(&self, other: &Date) -> (b: bool)
        ensures
            b == self.before(*other),
    {
        self.year < other.year || (self.year == other.year && (self.month < other.month || (
        self.month == other.month && self.day < other.day)))
    }

    /// The date as chrono's `NaiveDate` displays it.
    pub fn to_iso_text(&self) -> (s: String)
        ensures
            s@ == iso_text(*self),
    {
        let mut s = String::new();
        let y = self.year;
        if 0 <= y && y <= 9999 {
            push_padded(&mut s, y as usize, 4);
        } else if y < 0 {
            push_char(&mut s, '-');
            let a: i64 = -(y as i64);
            push_padded(&mut s, a as usize, 4);
        } else {
            push_char(&mut s, '+');
            push_padded(&mut s, y as usize, 4);
        }
        push_char(&mut s, '-');
        push_padded(&mut s, self.month as usize, 2);
        push_char(&mut s, '-');
        push_padded(&mut s, self.day as usize, 2);
        proof {
            assert(s@ =~= iso_text(*self));
        }
        s
    }

    /// The date written in `s` as `YYYY_MM_DD`, read as chrono reads it.
    pub fn parse(s: &str) -> (r: Option<Date>)
        ensures
            r == (match parsed_date(s@) {
                Some((y, m, d)) => Some(Date { year: y, month: m, day: d }),
                None => None,
            }),
    {
        match parse_ymd(s) {
            Some((y, m, d)) => Some(Date { year: y, month: m, day: d }),
            None => None,
        }
    }
}

/// `n` in decimal, with zeros in front up to `width` digits.
pub open spec fn padded(n: nat, width: nat) -> Seq<char> {
    let d = decimal(n);
    if d.len() < width {
        Seq::new((width - d.len()) as nat, |i: int| '0') + d
    } else {
        d
    }
}

/// The text of `d` as chrono's `NaiveDate` displays it: `YYYY-MM-DD`, the
/// year with a sign and at least four digits when it is not in `0..=9999`.
pub open spec fn iso_text(d: Date) -> Seq<char> {
    let year = if 0 <= d.year <= 9999 {
        padded(d.year as nat, 4)
    } else if d.year < 0 {
        seq!['-'] + padded((-d.year) as nat, 4)
    } else {
        seq!['+'] + padded(d.year as nat, 4)
    };
    year + seq!['-'] + padded(d.month as nat, 2) + seq!['-'] + padded(d.day as nat, 2)
}

/// Appends `n` in decimal, with zeros in front up to `width` digits.
fn push_padded(s: &mut String, n: usize, width: usize)
    ensures
        final(s)@ == old(s)@ + padded(n as nat, width as nat),
{
    let digits = format_decimal(n);
    let len = chars_of(digits.as_str()).len();
    let ghost start = s@;
    if len < width {
        let mut k: usize = 0;
        while k < width - len
            invariant
                k <= width - len,
                len == decimal(n as nat).len(),
                s@ == start + Seq::new(k as nat, |i: int| '0'),
            decreases width - len - k,
        {
            push_char(s, '0');
            assert(Seq::new((k + 1) as nat, |i: int| '0') =~= Seq::new(k as nat, |i: int| '0').push('0'));
            k = k + 1;
        }
    }
    s.append(digits.as_str());
    proof {
        if len < width {
            assert(s@ =~= start + padded(n as nat, width as nat));
        } else {
            assert(s@ =~= start + padded(n as nat, width as nat));
        }
    }
}

/// The year, month and day that chrono's `NaiveDate::parse_from_str` reads
/// from `s` with the format `%Y_%m_%d`, or `None` where it fails.
pub uninterp spec fn parsed_date(s: Seq<char>) -> Option<(i32, u32, u32)>;

/// Calls `chrono::NaiveDate::parse_from_str(s, "%Y_%m_%d")` and takes the
/// year, month and day of the date it returns. The contract only names the
/// result: what chrono accepts is not restated here.
#[verifier::external_body]
fn parse_ymd(s: &str) -> (r: Option<(i32, u32, u32)>)
    ensures
        r == parsed_date(s@),
{
    match chrono::NaiveDate::parse_from_str(s, "%Y_%m_%d") {
        Ok(d) => Some((d.year(), d.month(), d.day())),
        Err(_) => None,
    }
}

/// A commit of a repository: its hash and its date (`YYYY_MM_DD`).
#[derive(Debug)]
pub struct Commit {
    /// The commit we are checking out.
    pub hash: String,
    /// The date is for ordering results.
    pub date: String,
}

/// The plain contents of a [`Commit`].
pub struct CommitView {
    pub hash: Seq<char>,
    pub date: Seq<char>,
}

impl View for Commit {
    type V = CommitView;

    open spec fn view(&self) -> CommitView {
        CommitView { hash: self.hash@, date: self.date@ }
    }
}

/// Commits, by their views.
pub open spec fn commit_views(v: Seq<Commit>) -> Seq<CommitView> {
    v.map_values(|c: Commit| c@)
}

/// Pairs read as commits.
pub open spec fn pairs_as_commits(v: Seq<(Seq<char>, Seq<char>)>) -> Seq<CommitView> {
    v.map_values(|p: (Seq<char>, Seq<char>)| CommitView { hash: p.0, date: p.1 })
}

/// A commit result, by its view.
pub open spec fn cres(r: Result<Commit, Error>) -> Result<CommitView, Error> {
    match r {
        Ok(c) => Ok(c@),
        Err(e) => Err(e),
    }
}

/// A result holding commits, by their views.
pub open spec fn csres(r: Result<Vec<Commit>, Error>) -> Result<Seq<CommitView>, Error> {
    match r {
        Ok(v) => Ok(commit_views(v@)),
        Err(e) => Err(e),
    }
}

/// Pairs as commits, in a result.
pub open spec fn as_commits(r: Result<Seq<(Seq<char>, Seq<char>)>, Error>) -> Result<
    Seq<CommitView>,
    Error,
> {
    match r {
        Ok(v) => Ok(pairs_as_commits(v)),
        Err(e) => Err(e),
    }
}

/// A pair as a commit, in a result.
pub open spec fn as_commit(r: Result<(Seq<char>, Seq<char>), Error>) -> Result<CommitView, Error> {
    match r {
        Ok(p) => Ok(CommitView { hash: p.0, date: p.1 }),
        Err(e) => Err(e),
    }
}

/// `(hash, date)` pairs as commits.
fn to_commits(v: Vec<(String, String)>) -> (r: Vec<Commit>)
    ensures
        commit_views(r@) == pairs_as_commits(pair_views(v@)),
{
    let mut r: Vec<Commit> = Vec::new();
    let mut i: usize = 0;
    while i < v.len()
        invariant
            i <= v.len(),
            commit_views(r@) == pairs_as_commits(pair_views(v@)).take(i as int),
        decreases v.len() - i,
    {
        let c = Commit::from_hash_and_date_tuple((v[i].0.clone(), v[i].1.clone()));
        let ghost old_r = r@;
        r.push(c);
        assert(commit_views(r@) =~= commit_views(old_r).push(c@));
        assert(pairs_as_commits(pair_views(v@)).take(i as int + 1) =~= pairs_as_commits(
            pair_views(v@),
        ).take(i as int).push(c@));
        i = i + 1;
    }
    assert(pairs_as_commits(pair_views(v@)).take(v.len() as int) =~= pairs_as_commits(
        pair_views(v@),
    ));
    r
}

/// The newest commit of `branch`.
pub fn get_last_commit<F: Fn(&Invocation) -> Result<CommandOutput, RunError>>(
    repo: &str,
    branch: &str,
    runner: &mut Runner<F>,
) -> (res: Result<Commit, Error>)
    requires
        accepts_all(old(runner).fun()),
    ensures
        final(runner).fun() == old(runner).fun(),
        final(runner).log() == old(runner).log().push(log_inv(repo@, branch@)),
        exists|o| #[trigger] ran(old(runner).fun(), log_inv(repo@, branch@), o) && cres(res) == newest_commit(o),
{
    match commands::get_last_commit(repo, branch, runner) {
        Ok(x) => Ok(Commit::from_hash_and_date_tuple(x)),
        Err(e) => Err(e),
    }
}

/// The commits of `branch` between two dates, newest first.
pub fn get_commits_since<F: Fn(&Invocation) -> Result<CommandOutput, RunError>>(
    repo: &str,
    branch: &str,
    after_date: Option<&str>,
    before_date: Option<&str>,
    runner: &mut Runner<F>,
) -> (res: Result<Vec<Commit>, Error>)
    requires
        accepts_all(old(runner).fun()),
    ensures
        final(runner).fun() == old(runner).fun(),
        final(runner).log() == old(runner).log().push(since_inv(repo@, branch@, opt_str(after_date), opt_str(before_date))),
        exists|o| #[trigger]
            ran(
                old(runner).fun(),
                since_inv(
                    repo@,
                    branch@,
                    opt_str(after_date),
                    opt_str(before_date),
                ),
                o,
            ) && csres(res) == listed_commits(o),
{
    match commands::get_commits_since(repo, branch, after_date, before_date, runner) {
        Ok(v) => Ok(to_commits(v)),
        Err(e) => Err(e),
    }
}

/// The commits of `branch` between two dates, newest first: the same
/// listing as [`get_commits_since`]; no hash is taken or filtered on (see
/// [`law_commit_from_hash_is_the_listing`]).
pub fn get_commit_from_hash<F: Fn(&Invocation) -> Result<CommandOutput, RunError>>(
    repo: &str,
    branch: &str,
    after_date: Option<&str>,
    before_date: Option<&str>,
    runner: &mut Runner<F>,
) -> (res: Result<Vec<Commit>, Error>)
    requires
        accepts_all(old(runner).fun()),
    ensures
        final(runner).fun() == old(runner).fun(),
        final(runner).log() == old(runner).log().push(since_inv(repo@, branch@, opt_str(after_date), opt_str(before_date))),
        exists|o| #[trigger]
            ran(
                old(runner).fun(),
                since_inv(
                    repo@,
                    branch@,
                    opt_str(after_date),
                    opt_str(before_date),
                ),
                o,
            ) && csres(res) == listed_commits(o),
{
    get_commits_since(repo, branch, after_date, before_date, runner)
}

impl Commit {
    /// The commit's date, read as `YYYY_MM_DD`.
    pub fn date(&self) -> (r: Result<Date, Error>)
        ensures
            r == (match parsed_date(self.date@) {
                Some((y, m, d)) => Ok(Date { year: y, month: m, day: d }),
                None => Err(Error::MalformedDate),
            }),
    {
        match Date::parse(self.date.as_str()) {
            Some(d) => Ok(d),
            None => Err(Error::MalformedDate),
        }
    }

    /// The commit with the hash and the date of `hash_and_date`.
    pub fn from_hash_and_date_tuple(hash_and_date: (String, String)) -> (c: Self)
        ensures
            c@ == (CommitView { hash: hash_and_date.0@, date: hash_and_date.1@ }),
    {
        Self { hash: hash_and_date.0, date: hash_and_date.1 }
    }

    /// The newest commit of `branch` on the day `date`, if there is one.
    pub fn new_last_at_date<F: Fn(&Invocation) -> Result<CommandOutput, RunError>>(
        repo: &str,
        branch: &str,
        date: &Date,
        runner: &mut Runner<F>,
    ) -> (res: Result<Option<Self>, Error>)
        requires
            accepts_all(old(runner).fun()),
        ensures
            final(runner).fun() == old(runner).fun(),
            final(runner).log() == old(runner).log().push(since_inv(repo@, branch@, Some(iso_text(*date)), Some(iso_text(*date)))),
            exists|o| #[trigger]
                ran(
                    old(runner).fun(),
                    since_inv(repo@, branch@, Some(iso_text(*date)), Some(iso_text(*date))),
                    o,
                ) && match as_commits(commits_result(stdout_result(o))) {
                    Err(e) => res == Err::<Option<Self>, Error>(e),
                    Ok(v) => if v.len() == 0 {
                        res == Ok::<Option<Self>, Error>(None)
                    } else {
                        res matches Ok(Some(c)) && c@ == v[0]
                    },
                },
    {
        let text = date.to_iso_text();
        let r = get_commits_since(repo, branch, Some(text.as_str()), Some(text.as_str()), runner);
        match r {
            Err(e) => Err(e),
            Ok(mut v) => {
                if v.len() == 0 {
                    Ok(None)
                } else {
                    let ghost vv = commit_views(v@);
                    let c = v.remove(0);
                    assert(c@ == vv[0]);
                    Ok(Some(c))
                }
            },
        }
    }

    /// The newest commit of `branch`.
    pub fn new_last_commit<F: Fn(&Invocation) -> Result<CommandOutput, RunError>>(
        repo: &str,
        branch: &str,
        runner: &mut Runner<F>,
    ) -> (res: Result<Self, Error>)
        requires
            accepts_all(old(runner).fun()),
        ensures
            final(runner).fun() == old(runner).fun(),
            final(runner).log() == old(runner).log().push(log_inv(repo@, branch@)),
            exists|o| #[trigger] ran(old(runner).fun(), log_inv(repo@, branch@), o) && cres(res)
                == as_commit(last_commit_result(stdout_result(o))),
    {
        get_last_commit(repo, branch, runner)
    }

    /// The commit `hash`, with its date as git prints it.
    pub fn new_from_hash<F: Fn(&Invocation) -> Result<CommandOutput, RunError>>(
        repo: &str,
        branch: &str,
        hash: String,
        runner: &mut Runner<F>,
    ) -> (res: Result<Self, Error>)
        requires
            accepts_all(old(runner).fun()),
        ensures
            final(runner).fun() == old(runner).fun(),
            final(runner).log() == old(runner).log().push(date_inv(repo@, hash@)),
            exists|o| #[trigger]
                ran(old(runner).fun(), date_inv(repo@, hash@), o) && cres(res) == (match stdout_result(o) {
                    Ok(s) => match first_line(s) {
                        Ok(d) => Ok(CommitView { hash: hash@, date: d }),
                        Err(e) => Err(e),
                    },
                    Err(e) => Err(e),
                }),
    {
        let date = get_date(repo, hash.as_str(), runner)?;
        Ok(Self::from_hash_and_date_tuple((hash, date)))
    }
}

/// The commits of `v` that start a run: the first one, and each one whose
/// key differs from the key of the commit just before it.
pub open spec fn run_heads(v: Seq<CommitView>, key: spec_fn(CommitView) -> Seq<char>) -> Seq<
    CommitView,
>
    decreases v.len(),
{
    if v.len() == 0 {
        Seq::empty()
    } else if v.len() >= 2 && key(v.last()) == key(v[v.len() - 2]) {
        run_heads(v.drop_last(), key)
    } else {
        run_heads(v.drop_last(), key).push(v.last())
    }
}

/// The commits kept when each one is compared with the last one kept and
/// dropped when their keys agree, as the collecting loops do it.
pub open spec fn keep_by_last(v: Seq<CommitView>, key: spec_fn(CommitView) -> Seq<char>) -> Seq<
    CommitView,
>
    decreases v.len(),
{
    if v.len() == 0 {
        Seq::empty()
    } else {
        let r = keep_by_last(v.drop_last(), key);
        if r.len() > 0 && key(r.last()) == key(v.last()) {
            r
        } else {
            r.push(v.last())
        }
    }
}

/// The date of a commit.
pub open spec fn date_key() -> spec_fn(CommitView) -> Seq<char> {
    |c: CommitView| c.date
}

/// The year and month of a commit: the first seven bytes of its date (the
/// whole date where it has no such prefix).
pub open spec fn month_key() -> spec_fn(CommitView) -> Seq<char> {
    |c: CommitView|
        match byte_prefix(c.date, 7) {
            Some(m) => m,
            None => c.date,
        }
}

/// The last commit kept has the key of the last commit seen.
pub proof fn lemma_keep_by_last_key(v: Seq<CommitView>, key: spec_fn(CommitView) -> Seq<char>)
    ensures
        v.len() > 0 ==> keep_by_last(v, key).len() > 0 && key(keep_by_last(v, key).last()) == key(
            v.last(),
        ),
    decreases v.len(),
{
    if v.len() > 0 {
        lemma_keep_by_last_key(v.drop_last(), key);
    }
}

/// Comparing with the last commit kept keeps exactly the commits that
/// start a run of equal keys.
pub proof fn lemma_keep_by_last_is_run_heads(v: Seq<CommitView>, key: spec_fn(CommitView) -> Seq<char>)
    ensures
        keep_by_last(v, key) == run_heads(v, key),
    decreases v.len(),
{
    if v.len() > 0 {
        lemma_keep_by_last_is_run_heads(v.drop_last(), key);
        lemma_keep_by_last_key(v.drop_last(), key);
        if v.len() >= 2 {
            assert(v.drop_last().last() == v[v.len() - 2]);
        }
    }
}

/// Of commits listed in order, keeping the first commit of each day keeps
/// exactly the commits whose date differs from the one before, and no two
/// neighbours that are kept share a date.
pub proof fn law_daily_commits_are_run_heads(v: Seq<CommitView>)
    ensures
        keep_by_last(v, date_key()) == run_heads(v, date_key()),
        forall|i: int|
            0 <= i < keep_by_last(v, date_key()).len() - 1 ==> keep_by_last(v, date_key())[i].date
                != #[trigger] keep_by_last(v, date_key())[i + 1].date,
{
    lemma_keep_by_last_is_run_heads(v, date_key());
    lemma_keep_by_last_neighbours_differ(v, date_key());
}

/// Neighbours that are kept have different keys.
pub proof fn lemma_keep_by_last_neighbours_differ(
    v: Seq<CommitView>,
    key: spec_fn(CommitView) -> Seq<char>,
)
    ensures
        forall|i: int|
            0 <= i < keep_by_last(v, key).len() - 1 ==> key(keep_by_last(v, key)[i]) != key(
                #[trigger] keep_by_last(v, key)[i + 1],
            ),
    decreases v.len(),
{
    if v.len() > 0 {
        lemma_keep_by_last_neighbours_differ(v.drop_last(), key);
        let r = keep_by_last(v.drop_last(), key);
        if !(r.len() > 0 && key(r.last()) == key(v.last())) {
            assert forall|i: int| 0 <= i < r.push(v.last()).len() - 1 implies key(r.push(v.last())[i])
                != key(#[trigger] r.push(v.last())[i + 1]) by {
                if i + 1 < r.len() {
                    assert(r.push(v.last())[i + 1] == r[i + 1]);
                    assert(r.push(v.last())[i] == r[i]);
                } else {
                    assert(r.push(v.last())[i] == r.last());
                }
            }
        }
    }
}

/// The commits of `v`, keeping only the first one of each date.
pub fn keep_first_of_each_day(v: Vec<Commit>) -> (r: Vec<Commit>)
    ensures
        commit_views(r@) == keep_by_last(commit_views(v@), date_key()),
{
    let ghost all = commit_views(v@);
    let mut commits: Vec<Commit> = Vec::new();
    let n = v.len();
    let mut i: usize = 0;
    assert(all.take(0) =~= Seq::<CommitView>::empty());
    while i < n
        invariant
            n == v.len(),
            all == commit_views(v@),
            i <= n,
            commit_views(commits@) == keep_by_last(all.take(i as int), date_key()),
        decreases n - i,
    {
        let c = Commit { hash: v[i].hash.clone(), date: v[i].date.clone() };
        assert(c@ == all[i as int]);
        assert(all.take(i as int + 1).drop_last() =~= all.take(i as int));
        assert(all.take(i as int + 1).last() == c@);
        let skip = if commits.len() > 0 {
            let last = &commits[commits.len() - 1];
            assert(last@ == commit_views(commits@).last());
            c.date == last.date
        } else {
            false
        };
        if !skip {
            let ghost old_c = commits@;
            commits.push(c);
            assert(commit_views(commits@) =~= commit_views(old_c).push(c@));
        }
        i = i + 1;
    }
    assert(all.take(n as int) =~= all);
    commits
}

/// The commits of `v`, keeping only the first one of each month, compared
/// by the first seven bytes of their dates; a date that must be compared
/// and has fewer bytes, or a character across byte seven, is an error.
pub open spec fn keep_monthly(v: Seq<CommitView>) -> Result<Seq<CommitView>, Error>
    decreases v.len(),
{
    if v.len() == 0 {
        Ok(Seq::empty())
    } else {
        match keep_monthly(v.drop_last()) {
            Err(e) => Err(e),
            Ok(r) => if r.len() > 0 {
                if byte_prefix(v.last().date, 7) is None || byte_prefix(r.last().date, 7) is None {
                    Err(Error::MalformedDate)
                } else if byte_prefix(v.last().date, 7) == byte_prefix(r.last().date, 7) {
                    Ok(r)
                } else {
                    Ok(r.push(v.last()))
                }
            } else {
                Ok(r.push(v.last()))
            },
        }
    }
}

/// When every date has a prefix of seven bytes, keeping the first commit of
/// each month compares by that prefix.
pub proof fn law_monthly_commits_are_run_heads(v: Seq<CommitView>)
    requires
        forall|i: int| 0 <= i < v.len() ==> byte_prefix((#[trigger] v[i]).date, 7) is Some,
    ensures
        keep_monthly(v) == Ok::<Seq<CommitView>, Error>(keep_by_last(v, month_key())),
        keep_by_last(v, month_key()) == run_heads(v, month_key()),
    decreases v.len(),
{
    if v.len() > 0 {
        law_monthly_commits_are_run_heads(v.drop_last());
        lemma_keep_by_last_subset(v.drop_last(), month_key());
    }
    lemma_keep_by_last_is_run_heads(v, month_key());
}

/// Every commit kept is one of the commits seen.
pub proof fn lemma_keep_by_last_subset(v: Seq<CommitView>, key: spec_fn(CommitView) -> Seq<char>)
    ensures
        forall|i: int| 0 <= i < keep_by_last(v, key).len() ==> v.contains(#[trigger] keep_by_last(v, key)[i]),
    decreases v.len(),
{
    if v.len() > 0 {
        lemma_keep_by_last_subset(v.drop_last(), key);
        let r = keep_by_last(v.drop_last(), key);
        assert forall|i: int| 0 <= i < keep_by_last(v, key).len() implies v.contains(#[trigger] keep_by_last(v, key)[i]) by {
            if i < r.len() {
                let j = choose|j: int| 0 <= j < v.drop_last().len() && v.drop_last()[j] == r[i];
                assert(v[j] == r[i]);
            } else {
                assert(v[v.len() - 1] == v.last());
            }
        }
    }
}

/// The commits of `v`, keeping only the first one of each month.
pub fn keep_first_of_each_month(v: Vec<Commit>) -> (r: Result<Vec<Commit>, Error>)
    ensures
        csres(r) == keep_monthly(commit_views(v@)),
{
    let ghost all = commit_views(v@);
    let mut commits: Vec<Commit> = Vec::new();
    let n = v.len();
    let mut i: usize = 0;
    assert(all.take(0) =~= Seq::<CommitView>::empty());
    assert(commit_views(commits@) =~= Seq::<CommitView>::empty());
    while i < n
        invariant
            n == v.len(),
            all == commit_views(v@),
            i <= n,
            keep_monthly(all.take(i as int)) == Ok::<Seq<CommitView>, Error>(commit_views(commits@)),
        decreases n - i,
    {
        let c = Commit { hash: v[i].hash.clone(), date: v[i].date.clone() };
        assert(c@ == all[i as int]);
        assert(all.take(i as int + 1).drop_last() =~= all.take(i as int));
        assert(all.take(i as int + 1).last() == c@);
        let mut keep = true;
        if commits.len() > 0 {
            let last = &commits[commits.len() - 1];
            assert(last@ == commit_views(commits@).last());
            let d0 = crate::text::byte_prefix_of(c.date.as_str(), 7);
            let d1 = crate::text::byte_prefix_of(last.date.as_str(), 7);
            match (d0, d1) {
                (Some(a), Some(b)) => {
                    if crate::text::str_eq(a.as_str(), b.as_str()) {
                        keep = false;
                    }
                },
                _ => {
                    proof {
                        lemma_keep_monthly_error_persists(all, i as int + 1);
                    }
                    assert(all.take(n as int) =~= all);
                    return Err(Error::MalformedDate);
                },
            }
        }
        if keep {
            let ghost old_c = commits@;
            commits.push(c);
            assert(commit_views(commits@) =~= commit_views(old_c).push(c@));
        }
        i = i + 1;
    }
    assert(all.take(n as int) =~= all);
    Ok(commits)
}

/// Once a prefix fails, the whole list fails the same way.
pub proof fn lemma_keep_monthly_error_persists(v: Seq<CommitView>, k: int)
    requires
        0 <= k <= v.len(),
        keep_monthly(v.take(k)) is Err,
    ensures
        keep_monthly(v) == keep_monthly(v.take(k)),
    decreases v.len() - k,
{
    if k == v.len() {
        assert(v.take(k) =~= v);
    } else {
        assert(v.take(k + 1).drop_last() =~= v.take(k));
        lemma_keep_monthly_error_persists(v, k + 1);
    }
}

/// The repository did not change between the runs of `inv`: the runner
/// answers that command one way only.
pub open spec fn answers_alike<F: Fn(&Invocation) -> Result<CommandOutput, RunError>>(
    runner: F,
    inv: InvocationView,
) -> bool {
    forall|o1, o2| #[trigger] ran(runner, inv, o1) && #[trigger] ran(runner, inv, o2) ==> o1 == o2
}

/// The commits listed in the reply `o` to a listing of commits.
pub open spec fn listed_commits(o: Result<CommandOutput, RunError>) -> Result<Seq<CommitView>, Error> {
    as_commits(commits_result(stdout_result(o)))
}

/// The newest commit in the reply `o` to a listing of commits.
pub open spec fn newest_commit(o: Result<CommandOutput, RunError>) -> Result<CommitView, Error> {
    as_commit(last_commit_result(stdout_result(o)))
}

/// Reading a list of lines that all read gives one pair for each line, in
/// order.
pub proof fn lemma_commit_list_each(ls: Seq<Seq<char>>)
    requires
        commit_list(ls) is Ok,
    ensures
        commit_list(ls)->Ok_0.len() == ls.len(),
        forall|i: int|
            0 <= i < ls.len() ==> commit_fields(#[trigger] ls[i]) == Ok::<(Seq<char>, Seq<char>), Error>(
                commit_list(ls)->Ok_0[i],
            ),
    decreases ls.len(),
{
    if ls.len() > 0 {
        lemma_commit_list_each(ls.drop_last());
        assert forall|i: int| 0 <= i < ls.len() implies commit_fields(#[trigger] ls[i]) == Ok::<
            (Seq<char>, Seq<char>),
            Error,
        >(commit_list(ls)->Ok_0[i]) by {
            if i < ls.len() - 1 {
                assert(ls[i] == ls.drop_last()[i]);
            }
        }
    }
}

/// The listing without dates is the log of the branch.
pub proof fn lemma_unbounded_listing_is_log(repo: Seq<char>, branch: Seq<char>)
    ensures
        since_inv(repo, branch, None, None) == log_inv(repo, branch),
{
    let c = log_command(repo, branch, "%H,%cs"@);
    assert(c.args + date_bounds(None, None) =~= c.args);
}

/// `get_commit_from_hash` lists the same commits as `get_commits_since`:
/// both hand the runner the listing between the two dates, and where the
/// repository did not change between the two calls, they give the same
/// result (`from_hash` and `since`, as their contracts state them).
pub proof fn law_commit_from_hash_is_the_listing<F: Fn(&Invocation) -> Result<CommandOutput, RunError>>(
    runner: F,
    repo: Seq<char>,
    branch: Seq<char>,
    after: Option<Seq<char>>,
    before: Option<Seq<char>>,
    from_hash: Result<Seq<CommitView>, Error>,
    since: Result<Seq<CommitView>, Error>,
)
    requires
        exists|o| #[trigger] ran(runner, since_inv(repo, branch, after, before), o) && from_hash == listed_commits(o),
        exists|o| #[trigger] ran(runner, since_inv(repo, branch, after, before), o) && since == listed_commits(o),
        answers_alike(runner, since_inv(repo, branch, after, before)),
    ensures
        from_hash == since,
{
    let o1 = choose|o| #[trigger] ran(runner, since_inv(repo, branch, after, before), o) && from_hash == listed_commits(o);
    let o2 = choose|o| #[trigger] ran(runner, since_inv(repo, branch, after, before), o) && since == listed_commits(o);
    assert(o1 == o2);
}

/// The newest commit that `get_last_commit` reads is the first commit of
/// the listing without dates that `get_commits_since` reads, where the
/// repository did not change between the two calls and the listing read
/// at least one commit.
pub proof fn law_last_commit_is_first_listed<F: Fn(&Invocation) -> Result<CommandOutput, RunError>>(
    runner: F,
    repo: Seq<char>,
    branch: Seq<char>,
    last: Result<CommitView, Error>,
    listed: Result<Seq<CommitView>, Error>,
)
    requires
        exists|o| #[trigger] ran(runner, log_inv(repo, branch), o) && last == newest_commit(o),
        exists|o| #[trigger] ran(runner, since_inv(repo, branch, None, None), o) && listed == listed_commits(o),
        answers_alike(runner, log_inv(repo, branch)),
        listed matches Ok(v) && v.len() > 0,
    ensures
        last == Ok::<CommitView, Error>(listed->Ok_0[0]),
{
    lemma_unbounded_listing_is_log(repo, branch);
    let o1 = choose|o| #[trigger] ran(runner, log_inv(repo, branch), o) && last == newest_commit(o);
    let o2 = choose|o| #[trigger] ran(runner, since_inv(repo, branch, None, None), o) && listed == listed_commits(o);
    assert(o1 == o2);
    let s = stdout_result(o1)->Ok_0;
    lemma_commit_list_each(lines_of(s));
    assert(commit_fields(lines_of(s)[0]) == Ok::<(Seq<char>, Seq<char>), Error>(commit_list(lines_of(s))->Ok_0[0]));
}

/// Whether `hash` was merged into `branch` is read from the listing of the
/// branches that contain it: where the repository did not change between
/// the calls of `was_commit_merged_to_branch` (giving `merged`) and
/// `commit_merged_to` (giving `listing`), `merged` is `Ok(true)` exactly
/// when some line of the listing, trimmed, is `branch`, and both fail
/// alike.
pub proof fn law_merged_to_branch_reads_listing<F: Fn(&Invocation) -> Result<CommandOutput, RunError>>(
    runner: F,
    repo: Seq<char>,
    hash: Seq<char>,
    branch: Seq<char>,
    merged: Result<bool, Error>,
    listing: Result<Seq<char>, Error>,
)
    requires
        exists|o| #[trigger]
            ran(runner, merged_inv(repo, hash), o) && merged == (match stdout_result(o) {
                Ok(s) => Ok(branch_listed(s, branch)),
                Err(e) => Err(e),
            }),
        exists|o| #[trigger] ran(runner, merged_inv(repo, hash), o) && listing == stdout_result(o),
        answers_alike(runner, merged_inv(repo, hash)),
    ensures
        merged == (match listing {
            Ok(s) => Ok::<bool, Error>(
                exists|i: int| 0 <= i < lines_of(s).len() && #[trigger] trim_spec(lines_of(s)[i]) == branch,
            ),
            Err(e) => Err(e),
        }),
{
    let o1 = choose|o| #[trigger]
        ran(runner, merged_inv(repo, hash), o) && merged == (match stdout_result(o) {
            Ok(s) => Ok(branch_listed(s, branch)),
            Err(e) => Err(e),
        });
    let o2 = choose|o| #[trigger] ran(runner, merged_inv(repo, hash), o) && listing == stdout_result(o);
    assert(o1 == o2);
}

} // verus!
