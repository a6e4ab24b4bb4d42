//! The setup of a benchmark, as read from its config file.
use vstd::prelude::*;

use crate::command::Command;
use crate::error::Error;

verus! {

/// The name of the file that sets up a benchmark; the subfolders of the
/// tests folder are searched for it.
pub const TEST_SETUP_FILE_NAME: &'static str = "osimperf-test.conf";

/// A benchmark setup as its file holds it.
pub struct ReadBenchTestSetup {
    pub name: String,
    /// Will be run before executing the benchmark.
    pub pre_benchmark_cmds: Option<Vec<Command>>,
    /// The benchmark test command.
    pub benchmark_cmd: Command,
    /// Will be run after executing the benchmark.
    pub post_benchmark_cmds: Option<Vec<Command>>,
    /// Will search in OSIMPERF_HOME/tests/opensim-models/* for files with the same name.
    pub files: Option<Vec<String>>,
}

/// A benchmark: its commands, its setup file and the model files it needs.
pub struct BenchTestSetup {
    pub name: String,
    pub benchmark_cmd: Command,
    pub pre_benchmark_cmds: Vec<Command>,
    pub post_benchmark_cmds: Vec<Command>,
    /// Path to the test config file.
    pub test_setup_file: String,
    pub model_files: Vec<String>,
}

/// The elements of `o`, or none.
pub open spec fn or_empty<T>(o: Option<Vec<T>>) -> Seq<T> {
    match o {
        Some(v) => v@,
        None => Seq::empty(),
    }
}

/// `s` is the setup that `config`, read from the file `path`, describes.
pub open spec fn set_up_from(s: BenchTestSetup, config: ReadBenchTestSetup, path: Seq<char>) -> bool {
    &&& s.name == config.name
    &&& s.benchmark_cmd == config.benchmark_cmd
    &&& s.pre_benchmark_cmds@ == or_empty(config.pre_benchmark_cmds)
    &&& s.post_benchmark_cmds@ == or_empty(config.post_benchmark_cmds)
    &&& s.model_files@ == or_empty(config.files)
    &&& s.test_setup_file@ == path
}

/// `read` was asked to read the setup file at a path that looks like `p`,
/// and answered `r`.
pub open spec fn read_gave<R: Fn(&str) -> Result<ReadBenchTestSetup, Error>>(
    read: R,
    p: Seq<char>,
    r: Result<ReadBenchTestSetup, Error>,
) -> bool {
    exists|s: &str| s@ == p && #[trigger] call_ensures(read, (s,), r)
}

/// `s` is the setup that `read` read from the file at `p`.
pub open spec fn read_into<R: Fn(&str) -> Result<ReadBenchTestSetup, Error>>(
    read: R,
    p: Seq<char>,
    s: BenchTestSetup,
) -> bool {
    exists|c: ReadBenchTestSetup| #[trigger] read_gave(read, p, Ok(c)) && set_up_from(s, c, p)
}

/// `read` read a setup from the file at `p`.
pub open spec fn was_read<R: Fn(&str) -> Result<ReadBenchTestSetup, Error>>(read: R, p: Seq<char>) -> bool {
    exists|t: BenchTestSetup| #[trigger] read_into(read, p, t)
}

/// The elements of `o`, or an empty vector.
fn unwrap_or_empty<T>(o: Option<Vec<T>>) -> (v: Vec<T>)
    ensures
        v@ == or_empty(o),
{
    match o {
        Some(v) => v,
        None => Vec::new(),
    }
}

impl BenchTestSetup {
    /// The setup that `config`, read from the file `path`, describes.
    pub fn new(config: ReadBenchTestSetup, path: String) -> (s: Self)
        ensures
            set_up_from(s, config, path@),
    {
        Self {
            test_setup_file: path,
            name: config.name,
            benchmark_cmd: config.benchmark_cmd,
            pre_benchmark_cmds: unwrap_or_empty(config.pre_benchmark_cmds),
            post_benchmark_cmds: unwrap_or_empty(config.post_benchmark_cmds),
            model_files: unwrap_or_empty(config.files),
        }
    }

    /// The setups of every setup file that `find` finds under `path`, each
    /// read by `read`, in the order found; the first file that cannot be
    /// read fails the whole.
    pub fn find_all<
        G: Fn(&str, &str) -> Vec<String>,
        R: Fn(&str) -> Result<ReadBenchTestSetup, Error>,
    >(path: &str, find: &G, read: &R) -> (res: Result<Vec<Self>, Error>)
        requires
            call_requires(*find, (path, TEST_SETUP_FILE_NAME)),
            forall|p: &str| call_requires(*read, (p,)),
        ensures
            exists|found: Vec<String>|
                #[trigger] call_ensures(*find, (path, TEST_SETUP_FILE_NAME), found) && (res matches Ok(
                    v,
) ==> v.len() == found.len() && forall|i: int|
                    0 <= i < v.len() ==> #[trigger] read_into(*read, found@[i]@, v@[i])) && (res matches Err(e) ==> exists|i: int|
                    0 <= i < found.len() && #[trigger] read_gave(*read, found@[i]@, Err(e))
                        && forall|k: int| 0 <= k < i ==> #[trigger] was_read(*read, found@[k]@)),
    {
        let found = find(path, TEST_SETUP_FILE_NAME);
        let mut tests: Vec<Self> = Vec::new();
        let mut i: usize = 0;
        while i < found.len()
            invariant
                i <= found.len(),
                tests.len() == i,
                call_ensures(*find, (path, TEST_SETUP_FILE_NAME), found),
                forall|p: &str| call_requires(*read, (p,)),
                forall|k: int| 0 <= k < i ==> #[trigger] read_into(*read, found@[k]@, tests@[k]),
            decreases found.len() - i,
        {
            let p = found[i].as_str();
            let r = read(p);
            assert(read_gave(*read, found@[i as int]@, r));
            match r {
                Ok(c) => {
                    let ghost cc = c;
                    let ghost before = tests@;
                    let s = Self::new(c, found[i].clone());
                    assert(set_up_from(s, cc, found@[i as int]@));
                    assert(read_gave(*read, found@[i as int]@, Ok(cc)));
                    tests.push(s);
                    assert forall|k: int| 0 <= k < i + 1 implies #[trigger] read_into(
                        *read,
                        found@[k]@,
                        tests@[k],
                    ) by {
                        if k < i {
                            assert(tests@[k] == before[k]);
                            assert(read_into(*read, found@[k]@, before[k]));
                        } else {
                            assert(tests@[k] == s);
                        }
                    }
                },
                Err(e) => {
                    assert forall|k: int| 0 <= k < i implies #[trigger] was_read(*read, found@[k]@) by {
                        assert(read_into(*read, found@[k]@, tests@[k]));
                    }
                    return Err(e);
                },
            }
            i = i + 1;
        }
        Ok(tests)
    }
}

} // verus!
