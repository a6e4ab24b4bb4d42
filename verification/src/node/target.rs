//! The three parts that are compiled for each commit, in order.
use vstd::prelude::*;

verus! {

/// A compilation target: the dependencies, opensim-core, or the benchmark
/// sources.
#[derive(Clone, Copy, Debug, PartialEq, Eq, Structural)]
pub enum CompilationTarget {
    Dependencies,
    OpenSimCore,
    TestsSource,
}

impl CompilationTarget {
    /// The target's position in the compilation order.
    pub open spec fn index_spec(self) -> nat {
        match self {
            CompilationTarget::Dependencies => 0,
            CompilationTarget::OpenSimCore => 1,
            CompilationTarget::TestsSource => 2,
        }
    }

    /// The target's position in the compilation order.
    pub fn index(&self) -> (i: usize)
        ensures
            i == self.index_spec(),
            i < 3,
    {
        match self {
            CompilationTarget::Dependencies => 0,
            CompilationTarget::OpenSimCore => 1,
            CompilationTarget::TestsSource => 2,
        }
    }

    /// The name of the target's folders.
    pub open spec fn name_spec(self) -> Seq<char> {
        match self {
            CompilationTarget::OpenSimCore => "opensim-core"@,
            CompilationTarget::Dependencies => "dependencies"@,
            CompilationTarget::TestsSource => "tests"@,
        }
    }

    /// The name of the target's folders.
    pub fn to_str(&self) -> (s: &'static str)
        ensures
            s@ == self.name_spec(),
    {
        match self {
            Self::OpenSimCore => "opensim-core",
            Self::Dependencies => "dependencies",
            Self::TestsSource => "tests",
        }
    }

    /// A short name of the target.
    pub open spec fn short_desc_spec(self) -> Seq<char> {
        match self {
            CompilationTarget::OpenSimCore => "osim"@,
            CompilationTarget::Dependencies => "deps"@,
            CompilationTarget::TestsSource => "src"@,
        }
    }

    /// A short name of the target.
    pub fn short_desc(&self) -> (s: &'static str)
        ensures
            s@ == self.short_desc_spec(),
    {
        match self {
            Self::OpenSimCore => "osim",
            Self::Dependencies => "deps",
            Self::TestsSource => "src",
        }
    }

    /// The target at position `other` of the compilation order.
    pub fn from(other: usize) -> (t: Self)
        requires
            other < 3,
        ensures
            t.index_spec() == other,
    {
        match other {
            0 => Self::Dependencies,
            1 => Self::OpenSimCore,
            _ => Self::TestsSource,
        }
    }

    /// All targets, in compilation order.
    pub fn list_all() -> (l: [Self; 3])
        ensures
            l@ == seq![
                CompilationTarget::Dependencies,
                CompilationTarget::OpenSimCore,
                CompilationTarget::TestsSource,
            ],
    {
        let l = [Self::Dependencies, Self::OpenSimCore, Self::TestsSource];
        assert(l@ =~= seq![
            CompilationTarget::Dependencies,
            CompilationTarget::OpenSimCore,
            CompilationTarget::TestsSource,
        ]);
        l
    }
}

/// Every position of the compilation order holds the target that `from`
/// gives for it, and `from` undoes `index`.
pub proof fn lemma_target_index_roundtrip(t: CompilationTarget)
    ensures
        t.index_spec() < 3,
        ({
            let l = seq![
                CompilationTarget::Dependencies,
                CompilationTarget::OpenSimCore,
                CompilationTarget::TestsSource,
            ];
            l[t.index_spec() as int] == t
        }),
{
}

} // verus!
