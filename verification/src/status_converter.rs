//! Nodes whose statuses also hold the install size, and their conversion to
//! the current node form.
use vstd::prelude::*;

use crate::common::git::Commit;
use crate::node::repo::repo::Repository;
use crate::node::status::{Progress, State, Status};

verus! {

/// A repository record that also holds the commit.
pub struct OldRepository {
    /// For nicer folder and results identifiers.
    pub name: String,
    /// Path to repository.
    pub path: String,
    /// For checking that path is correct.
    pub url: String,
    /// The branch the commit should belong to.
    pub branch: String,
    pub date: String,
    pub hash: String,
}

/// A finished compilation: the size of the install and how long it took,
/// in nanoseconds.
#[derive(Clone, Copy)]
pub struct Complete {
    pub size: usize,
    pub duration: u64,
}

/// The status of a target, with the size of a finished install.
pub enum OldStatus {
    Idle,
    Compiling(Progress),
    Error(String),
    Done(Complete),
}

/// The statuses of the three targets.
pub struct OldState {
    pub status_dependencies: OldStatus,
    pub status_opensim_core: OldStatus,
    pub status_tests_source: OldStatus,
}

/// The status that `old` becomes: the same, without the size of the
/// install.
pub open spec fn converted_status(old: OldStatus) -> Status {
    match old {
        OldStatus::Idle => Status::Idle,
        OldStatus::Compiling(p) => Status::Compiling(p),
        OldStatus::Error(e) => Status::Error(e),
        OldStatus::Done(c) => Status::Done(c.duration),
    }
}

/// The status that `old` becomes.
pub fn convert_status(old: OldStatus) -> (s: Status)
    ensures
        s == converted_status(old),
{
    match old {
        OldStatus::Idle => Status::Idle,
        OldStatus::Compiling(p) => Status::Compiling(p),
        OldStatus::Error(e) => Status::Error(e),
        OldStatus::Done(Complete { duration, .. }) => Status::Done(duration),
    }
}

/// The state that `old` becomes: each status converted, in compilation
/// order.
pub fn convert_state(old: OldState) -> (s: State)
    ensures
        s.statuses() == seq![
            converted_status(old.status_dependencies),
            converted_status(old.status_opensim_core),
            converted_status(old.status_tests_source),
        ],
{
    let a = [
        convert_status(old.status_dependencies),
        convert_status(old.status_opensim_core),
        convert_status(old.status_tests_source),
    ];
    assert(a@ =~= seq![
        converted_status(old.status_dependencies),
        converted_status(old.status_opensim_core),
        converted_status(old.status_tests_source),
    ]);
    State::from_statuses(a)
}

/// The repository and the commit that `old` held together.
pub fn convert_repo(old: OldRepository) -> (r: (Repository, Commit))
    ensures
        r.0.name == old.name,
        r.0.path == old.path,
        r.0.url == old.url,
        r.0.branch == old.branch,
        r.1.hash == old.hash,
        r.1.date == old.date,
{
    (
        Repository { name: old.name, path: old.path, url: old.url, branch: old.branch },
        Commit { hash: old.hash, date: old.date },
    )
}

/// Converting a status keeps its kind and what it carries: an idle status
/// stays idle, a compiling one keeps its progress, a failed one its
/// message, and a finished one its duration (only the install size is
/// dropped).
pub proof fn law_conversion_keeps_kind(old: OldStatus)
    ensures
        (converted_status(old) is Idle) <==> (old is Idle),
        (converted_status(old) is Compiling) <==> (old is Compiling),
        (converted_status(old) is Error) <==> (old is Error),
        (converted_status(old) is Done) <==> (old is Done),
        old matches OldStatus::Compiling(p) ==> converted_status(old) == Status::Compiling(p),
        old matches OldStatus::Error(e) ==> converted_status(old) == Status::Error(e),
        old matches OldStatus::Done(c) ==> converted_status(old) == Status::Done(c.duration),
{
}

} // verus!
