//! The compilation status of each target of a commit.
use vstd::prelude::*;

use super::target::CompilationTarget;

verus! {

/// How far a compilation has come, in percent.
#[derive(Clone, Copy, Debug)]
pub struct Progress {
    pub percentage: u64,
}

/// Where the compilation of one target stands.
#[derive(Debug)]
pub enum Status {
    /// Not started.
    Idle,
    /// Under way.
    Compiling(Progress),
    /// Failed, with the reason.
    Error(String),
    /// Finished, after this many nanoseconds.
    Done(u64),
}

impl Status {
    /// A target is compiled unless it already succeeded or failed.
    pub open spec fn should_compile_spec(self) -> bool {
        !(self is Done || self is Error)
    }

    /// Whether the target should be compiled: not when it already succeeded
    /// or failed.
    pub fn should_compile(&self) -> (b: bool)
        ensures
            b == self.should_compile_spec(),
    {
        match self {
            Status::Done(_) | Status::Error(_) => false,
            _ => true,
        }
    }

    /// Whether the compilation failed.
    pub fn has_failed(&self) -> (b: bool)
        ensures
            b == self is Error,
    {
        if let Self::Error(_) = self {
            return true;
        }
        false
    }

    /// Whether the compilation finished.
    pub fn is_done(&self) -> (b: bool)
        ensures
            b == self is Done,
    {
        if let Self::Done(_) = self {
            return true;
        }
        false
    }

    /// The status after a compilation that took `output` nanoseconds, or
    /// that failed with the message `output`.
    pub open spec fn from_output_spec(output: Result<u64, String>) -> Self {
        match output {
            Ok(d) => Status::Done(d),
            Err(m) => Status::Error(m),
        }
    }

    /// The status after a compilation that took `output` nanoseconds, or
    /// that failed with the message `output`.
    pub fn from_output(output: Result<u64, String>) -> (s: Self)
        ensures
            s == Self::from_output_spec(output),
    {
        match output {
            Ok(duration) => Self::Done(duration),
            Err(err) => Self::Error(err),
        }
    }

    /// A copy of this status.
    pub fn duplicate(&self) -> (s: Self)
        ensures
            s.kind() == self.kind(),
    {
        match self {
            Status::Idle => Status::Idle,
            Status::Compiling(p) => Status::Compiling(*p),
            Status::Error(m) => Status::Error(m.clone()),
            Status::Done(d) => Status::Done(*d),
        }
    }

    /// The status without its message: equal kinds compare equal.
    pub open spec fn kind(self) -> StatusKind {
        match self {
            Status::Idle => StatusKind::Idle,
            Status::Compiling(p) => StatusKind::Compiling(p.percentage),
            Status::Error(m) => StatusKind::Error(m@),
            Status::Done(d) => StatusKind::Done(d),
        }
    }
}

/// The plain contents of a [`Status`].
pub enum StatusKind {
    Idle,
    Compiling(u64),
    Error(Seq<char>),
    Done(u64),
}

impl Default for Status {
    fn default() -> (s: Self)
        ensures
            s is Idle,
    {
        Self::Idle
    }
}

/// The status of each of the three targets, in compilation order.
#[derive(Debug)]
pub struct State {
    status: [Status; 3],
}

impl State {
    /// The statuses, in compilation order.
    pub closed spec fn statuses(self) -> Seq<Status> {
        self.status@
    }

    /// The status of `target`.
    pub open spec fn status_of(self, target: CompilationTarget) -> Status {
        self.statuses()[target.index_spec() as int]
    }

    /// A state with every target idle.
    pub fn new() -> (s: Self)
        ensures
            s.statuses().len() == 3,
            forall|i: int| 0 <= i < 3 ==> #[trigger] s.statuses()[i] is Idle,
    {
        Self { status: [Status::Idle, Status::Idle, Status::Idle] }
    }

    /// Sets the status of `target`.
    pub fn set(&mut self, target: CompilationTarget, status: Status)
        ensures
            final(self).statuses() == old(self).statuses().update(target.index_spec() as int, status),
    {
        let i = target.index();
        self.status[i] = status;
    }

    /// Sets every target to idle.
    pub fn reset(&mut self)
        ensures
            final(self).statuses().len() == 3,
            forall|i: int| 0 <= i < 3 ==> #[trigger] final(self).statuses()[i] is Idle,
    {
        self.status[0] = Status::Idle;
        self.status[1] = Status::Idle;
        self.status[2] = Status::Idle;
    }

    /// The statuses, in compilation order.
    pub fn get(&self) -> (a: &[Status; 3])
        ensures
            a@ == self.statuses(),
    {
        &self.status
    }

    /// The status of `target`.
    pub fn status(&self, target: CompilationTarget) -> (s: &Status)
        ensures
            *s == self.status_of(target),
    {
        &self.status[target.index()]
    }

    /// A state holding `status`.
    pub fn from_statuses(status: [Status; 3]) -> (s: Self)
        ensures
            s.statuses() == status@,
    {
        Self { status }
    }

    /// The state has a status for each of the three targets.
    pub proof fn lemma_len(&self)
        ensures
            self.statuses().len() == 3,
    {
    }
}

impl Default for State {
    fn default() -> (s: Self)
        ensures
            s.statuses().len() == 3,
            forall|i: int| 0 <= i < 3 ==> #[trigger] s.statuses()[i] is Idle,
    {
        Self::new()
    }
}

} // verus!
