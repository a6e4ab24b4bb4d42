//! The parts of a build, by their position.
use vstd::prelude::*;

verus! {

/// A part of a build: the dependencies, opensim-core, or the benchmark
/// sources.
#[derive(Clone, Copy, PartialEq, Eq, Structural)]
pub enum Focus {
    Dependencies,
    OpenSimCore,
    TestsSource,
}

impl Focus {
    /// The position of the part.
    pub open spec fn index_spec(self) -> nat {
        match self {
            Focus::Dependencies => 0,
            Focus::OpenSimCore => 1,
            Focus::TestsSource => 2,
        }
    }

    /// The name of the part's folders.
    pub open spec fn name_spec(self) -> Seq<char> {
        match self {
            Focus::OpenSimCore => "opensim-core"@,
            Focus::Dependencies => "dependencies"@,
            Focus::TestsSource => "tests"@,
        }
    }

    /// The name of the part's folders.
    pub fn to_str(&self) -> (s: &'static str)
        ensures
            s@ == self.name_spec(),
    {
        match self {
            Self::OpenSimCore => "opensim-core",
            Self::Dependencies => "dependencies",
            Self::TestsSource => "tests",
        }
    }

    /// The part at position `other`.
    pub fn from(other: usize) -> (f: Self)
        requires
            other < 3,
        ensures
            f.index_spec() == other,
    {
        match other {
            0 => Self::Dependencies,
            1 => Self::OpenSimCore,
            _ => Self::TestsSource,
        }
    }
}

} // verus!
