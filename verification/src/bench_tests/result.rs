//! The timings collected for one benchmark of one compiled commit.
use vstd::prelude::*;

use crate::folders::{Folder, ResultsFolder};
use crate::node::repo::Id;
use crate::text::{join, path_join};

verus! {

/// The durations of the successful runs, in nanoseconds, oldest first.
pub struct Durations {
    samples: Vec<u64>,
}

impl View for Durations {
    type V = Seq<u64>;

    closed spec fn view(&self) -> Seq<u64> {
        self.samples@
    }
}

impl Durations {
    /// No samples.
    pub fn new() -> (d: Self)
        ensures
            d@ == Seq::<u64>::empty(),
    {
        Self { samples: Vec::new() }
    }

    /// The samples in `samples`, oldest first.
    pub fn from_samples(samples: Vec<u64>) -> (d: Self)
        ensures
            d@ == samples@,
    {
        Self { samples }
    }

    /// The number of samples.
    pub fn len(&self) -> (n: usize)
        ensures
            n == self@.len(),
    {
        self.samples.len()
    }

    /// Forgets every sample.
    pub fn clear(&mut self)
        ensures
            final(self)@ == Seq::<u64>::empty(),
    {
        self.samples.clear();
    }

    /// Adds the duration of a successful run.
    pub fn add_sample(&mut self, duration: u64)
        ensures
            final(self)@ == old(self)@.push(duration),
    {
        self.samples.push(duration);
    }

    /// The samples, oldest first.
    pub fn get(&self) -> (s: &Vec<u64>)
        ensures
            s@ == self@,
    {
        &self.samples
    }
}

impl Default for Durations {
    fn default() -> (d: Self)
        ensures
            d@ == Seq::<u64>::empty(),
    {
        Self::new()
    }
}

/// The file name of a benchmark result.
pub const RESULT_NODE_FILE: &'static str = ".osimperf-result.node";

/// What the runs of one benchmark on one compiled commit gave.
pub struct BenchTestResult {
    /// The hash of the benchmark setup and the compiled commit the results
    /// belong to.
    pub hash: Option<u64>,
    /// Failed runs since the last success was recorded.
    pub failed_count: usize,
    /// The successful runs.
    pub durations: Durations,
    /// Where the result is stored.
    pub path_to_self: String,
}

/// The hash, failure count and samples of a result after it is tied to the
/// hash `h`: unchanged when it already was, reset otherwise.
pub open spec fn hash_update(hash: Option<u64>, failed: nat, samples: Seq<u64>, h: u64) -> (
    Option<u64>,
    nat,
    Seq<u64>,
) {
    if hash == Some(h) {
        (hash, failed, samples)
    } else {
        (Some(h), 0, Seq::empty())
    }
}

/// Where the result of the benchmark `name` on the commit of `id` is
/// stored, inside the results folder `results`.
pub open spec fn result_path(results: Seq<char>, subfolder: Seq<char>, name: Seq<char>) -> Seq<char> {
    path_join(path_join(path_join(results, subfolder), name), RESULT_NODE_FILE@)
}

impl BenchTestResult {
    /// The name of the file that stores a result.
    pub fn magic_file() -> (s: &'static str)
        ensures
            s@ == RESULT_NODE_FILE@,
    {
        RESULT_NODE_FILE
    }

    /// Returns the path that this result would be stored at.
    pub fn path_to_node<'a>(results: &ResultsFolder, id: &Id<'a>, name: &str) -> (p: String)
        ensures
            p@ == result_path(results.path_spec(), id.subfolder_name_spec(), name@),
    {
        let a = join(results.path_unchecked(), id.subfolder_name().as_str());
        let b = join(a.as_str(), name);
        join(b.as_str(), Self::magic_file())
    }

    /// An empty result stored where the benchmark `name` on the commit of
    /// `id` belongs.
    pub fn new<'a>(results: &ResultsFolder, id: &Id<'a>, name: &str) -> (r: Self)
        ensures
            r.path_to_self@ == result_path(results.path_spec(), id.subfolder_name_spec(), name@),
            r.hash is None,
            r.failed_count == 0,
            r.durations@ == Seq::<u64>::empty(),
    {
        Self {
            hash: None,
            failed_count: 0,
            durations: Durations::new(),
            path_to_self: Self::path_to_node(results, id, name),
        }
    }

    /// The stored result of the benchmark `name` on the commit of `id`, as
    /// `read_file` reads it from its path; `None` when it cannot be read.
    pub fn read<'a, R: Fn(&str) -> Option<BenchTestResult>>(
        results: &ResultsFolder,
        id: &Id<'a>,
        name: &str,
        read_file: &R,
    ) -> (r: Option<Self>)
        requires
            forall|p: &str| call_requires(*read_file, (p,)),
        ensures
            exists|p: &str|
                p@ == result_path(results.path_spec(), id.subfolder_name_spec(), name@)
                    && #[trigger] call_ensures(*read_file, (p,), r),
    {
        let path = Self::path_to_node(results, id, name);
        read_file(path.as_str())
    }

    /// More runs are wanted: fewer than `max_iter` samples and fewer than
    /// `max_failures` failures.
    pub open spec fn should_run_spec(&self, max_iter: usize, max_failures: usize) -> bool {
        self.durations@.len() < max_iter && self.failed_count < max_failures
    }

    /// Whether more runs are wanted.
    pub fn should_run(&self, max_iter: usize, max_failures: usize) -> (b: bool)
        ensures
            b == self.should_run_spec(max_iter, max_failures),
    {
        self.durations.len() < max_iter && self.failed_count < max_failures
    }

    /// Ties the result to the setup and commit hashed as `hash`: a new hash
    /// forgets the samples and failures gathered before.
    pub fn update_hash(&mut self, hash: u64)
        ensures
            (final(self).hash, final(self).failed_count as nat, final(self).durations@) == hash_update(
                old(self).hash,
                old(self).failed_count as nat,
                old(self).durations@,
                hash,
            ),
            final(self).path_to_self == old(self).path_to_self,
    {
        if let Some(h) = self.hash {
            if h == hash {
                return;
            }
        }
        self.failed_count = 0;
        self.durations.clear();
        self.hash = Some(hash);
    }

    /// Records a run: its duration when it succeeded, or a failure, which
    /// also forgets the samples.
    pub fn update_result(&mut self, cmd_output: Option<u64>)
        requires
            cmd_output is None ==> old(self).failed_count < usize::MAX,
        ensures
            final(self).hash == old(self).hash,
            final(self).path_to_self == old(self).path_to_self,
            match cmd_output {
                Some(d) => final(self).durations@ == old(self).durations@.push(d)
                    && final(self).failed_count == old(self).failed_count,
                None => final(self).durations@ == Seq::<u64>::empty() && final(self).failed_count
                    == old(self).failed_count + 1,
            },
    {
        if let Some(duration) = cmd_output {
            self.durations.add_sample(duration);
        } else {
            self.failed_count += 1;
            self.durations.clear();
        }
    }
}

/// Updating twice with the same hash is updating once: the second update
/// changes nothing.
pub proof fn law_update_hash_idempotent(hash: Option<u64>, failed: nat, samples: Seq<u64>, h: u64)
    ensures
        ({
            let once = hash_update(hash, failed, samples, h);
            hash_update(once.0, once.1, once.2, h) == once
        }),
{
}

/// Failures only accumulate: once a result has `max_failures` failures it
/// wants no more runs, whatever runs are recorded after, as long as its
/// hash stays the same.
pub proof fn law_failures_stop_runs(
    r: BenchTestResult,
    max_iter: usize,
    max_failures: usize,
    outcome: Option<u64>,
    next: BenchTestResult,
)
    requires
        r.failed_count >= max_failures,
        match outcome {
            Some(d) => next.durations@ == r.durations@.push(d) && next.failed_count == r.failed_count,
            None => next.durations@ == Seq::<u64>::empty() && next.failed_count == r.failed_count + 1,
        },
    ensures
        !r.should_run_spec(max_iter, max_failures),
        !next.should_run_spec(max_iter, max_failures),
{
}

/// A result tied to a hash it was not tied to before forgets everything it
/// had gathered: afterwards it holds that hash, no sample and no failure.
/// Tied again to the hash it already holds, it keeps all it has.
pub proof fn law_new_hash_forgets_samples(hash: Option<u64>, failed: nat, samples: Seq<u64>, h: u64)
    ensures
        hash != Some(h) ==> ({
            let after = hash_update(hash, failed, samples, h);
            &&& after.0 == Some(h)
            &&& after.1 == 0
            &&& after.2.len() == 0
        }),
        hash == Some(h) ==> hash_update(hash, failed, samples, h) == (hash, failed, samples),
{
}

} // verus!
