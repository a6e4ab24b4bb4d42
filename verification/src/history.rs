//! The decisions of compiling the history of opensim-core month by month:
//! which commit stands for each month, whether to compile it, how a failed
//! install is marked, and what is recorded.
use vstd::prelude::*;

use crate::command::{Command, CommandView};
use crate::text::{concat, to_string, views};

verus! {

/// The month ranges between consecutive dates: `(dates[i], dates[i + 1])`.
pub open spec fn month_ranges(dates: Seq<Seq<char>>) -> Seq<(Seq<char>, Seq<char>)> {
    Seq::new(
        if dates.len() == 0 {
            0
        } else {
            (dates.len() - 1) as nat
        },
        |i: int| (dates[i], dates[i + 1]),
    )
}

/// The ranges between consecutive dates of `dates`.
pub fn month_bounds(dates: &[&str]) -> (r: Vec<(String, String)>)
    ensures
        r@.map_values(|p: (String, String)| (p.0@, p.1@)) == month_ranges(
            dates@.map_values(|d: &str| d@),
        ),
{
    let ghost ds = dates@.map_values(|d: &str| d@);
    let mut r: Vec<(String, String)> = Vec::new();
    if dates.len() == 0 {
        assert(r@.map_values(|p: (String, String)| (p.0@, p.1@)) =~= month_ranges(ds));
        return r;
    }
    let mut i: usize = 1;
    while i < dates.len()
        invariant
            1 <= i <= dates.len(),
            ds == dates@.map_values(|d: &str| d@),
            r@.len() == i - 1,
            forall|k: int| 0 <= k < r@.len() ==> (#[trigger] r@[k]).0@ == ds[k] && r@[k].1@ == ds[k + 1],
        decreases dates.len() - i,
    {
        let ghost before = r@;
        r.push((to_string(dates[i - 1]), to_string(dates[i])));
        assert forall|k: int| 0 <= k < r@.len() implies (#[trigger] r@[k]).0@ == ds[k] && r@[k].1@ == ds[k + 1] by {
            if k < before.len() {
                assert(r@[k] == before[k]);
            }
        }
        i = i + 1;
    }
    assert(r@.map_values(|p: (String, String)| (p.0@, p.1@)) =~= month_ranges(ds));
    r
}

/// The first element of each nonempty list of `s`, in order.
pub open spec fn firsts(s: Seq<Seq<Seq<char>>>) -> Seq<Seq<char>>
    decreases s.len(),
{
    if s.len() == 0 {
        Seq::empty()
    } else if s.last().len() > 0 {
        firsts(s.drop_last()).push(s.last()[0])
    } else {
        firsts(s.drop_last())
    }
}

/// The commit that stands for each month: the first of each list, months
/// without a commit left out.
pub fn first_of_each(lists: &Vec<Vec<String>>) -> (r: Vec<String>)
    ensures
        views(r@) == firsts(lists@.map_values(|l: Vec<String>| views(l@))),
{
    let ghost all = lists@.map_values(|l: Vec<String>| views(l@));
    let mut r: Vec<String> = Vec::new();
    let mut i: usize = 0;
    while i < lists.len()
        invariant
            i <= lists.len(),
            all == lists@.map_values(|l: Vec<String>| views(l@)),
            views(r@) == firsts(all.take(i as int)),
        decreases lists.len() - i,
    {
        assert(all.take(i + 1).drop_last() =~= all.take(i as int));
        assert(all.take(i + 1).last() == views(lists@[i as int]@));
        if lists[i].len() > 0 {
            let ghost before = r@;
            r.push(lists[i][0].clone());
            assert(views(r@) =~= views(before).push(lists@[i as int]@[0]@));
        }
        i = i + 1;
    }
    assert(all.take(lists.len() as int) =~= all);
    r
}

/// What to do with the commit of a month.
pub enum HistoryAction {
    /// Its install checks out: go on with the next month.
    Skip,
    /// Compile it.
    Compile,
}

/// A commit whose install checks out is skipped; any other is compiled.
pub fn history_action(installed: bool) -> (a: HistoryAction)
    ensures
        installed <==> a is Skip,
{
    if installed {
        HistoryAction::Skip
    } else {
        HistoryAction::Compile
    }
}

/// `mv install install-failed`.
pub open spec fn mark_failed_spec(install: Seq<char>) -> CommandView {
    CommandView {
        cmd: "mv"@,
        args: seq![install, install + "-failed"@],
        envs: Seq::empty(),
        root: None,
    }
}

/// The command that marks the install folder of a commit that failed to
/// compile: it is moved to the same name with `-failed` added.
pub fn mark_failed(install: &str) -> (c: Command)
    ensures
        c@ == mark_failed_spec(install@),
{
    let mut c = Command::new("mv");
    c.add_arg(install);
    let failed = concat(install, "-failed");
    c.add_arg(failed.as_str());
    assert(c@.args =~= seq![install@, install@ + "-failed"@]);
    c
}

/// What follows a compilation: nothing when it succeeded; otherwise the
/// command that marks the install folder as failed.
pub fn after_compile(install: &str, compiled: bool) -> (c: Option<Command>)
    ensures
        compiled ==> c is None,
        !compiled ==> (c matches Some(m) && m@ == mark_failed_spec(install@)),
{
    if compiled {
        None
    } else {
        Some(mark_failed(install))
    }
}

/// The line recorded for a compiled month: `install,success` or
/// `install,failed`.
pub fn history_record(install: &str, compiled: bool) -> (s: String)
    ensures
        s@ == install@ + ","@ + (if compiled {
            "success"@
        } else {
            "failed"@
        }),
{
    let mut s = concat(install, ",");
    if compiled {
        s.append("success");
    } else {
        s.append("failed");
    }
    s
}

} // verus!
