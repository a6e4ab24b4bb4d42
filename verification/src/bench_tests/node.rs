//! One benchmark on one compiled commit: its environment, and how its runs
//! are recorded.
use vstd::prelude::*;
use crate::command::Runner;

use super::config::BenchTestSetup;
use super::result::BenchTestResult;
use super::run_cmds::{run_test_bench_cmd, with_env_spec, FileEnvVars};
use crate::command::{accepts_all, output_result, ran, CommandOutput, Invocation, InvocationView, RunError};
use crate::error::Error;
use crate::folders::{Folder, Home, ResultsFolder};
use crate::node::{all_done, CompilationNode};
use crate::text::{join, path_join, to_string};

verus! {

/// Runs a benchmark on a compiled commit and keeps its result up to date.
pub struct TestNode<'a, 'b, 'c, 'd> {
    test: &'a BenchTestSetup,
    compiler: &'b CompilationNode,
    home: &'c Home,
    results: &'d ResultsFolder,
    result: BenchTestResult,
    last_command_output: Option<CommandOutput>,
    warm_start_buffer: usize,
}

/// The folder of the benchmark `name` on the commit of `compiler`.
pub open spec fn output_dir(results: Seq<char>, compiler: CompilationNode, name: Seq<char>) -> Seq<char> {
    path_join(
        path_join(
            results,
            crate::node::repo::id::subfolder_spec(
                compiler.repo.name@,
                compiler.repo.branch@,
                compiler.commit.date@,
                compiler.commit.hash@,
            ),
        ),
        name,
    )
}

impl<'a, 'b, 'c, 'd> TestNode<'a, 'b, 'c, 'd> {
    /// The benchmark.
    pub closed spec fn test_spec(&self) -> BenchTestSetup {
        *self.test
    }

    /// The compiled commit.
    pub closed spec fn compiler_spec(&self) -> CompilationNode {
        *self.compiler
    }

    /// The result gathered so far.
    pub closed spec fn result_spec(&self) -> BenchTestResult {
        self.result
    }

    /// Runs still to do before the durations count.
    pub closed spec fn warm_start_spec(&self) -> usize {
        self.warm_start_buffer
    }

    /// The output of the last run, if any.
    pub closed spec fn last_output_spec(&self) -> Option<CommandOutput> {
        self.last_command_output
    }

    /// The folder of the home directory.
    pub closed spec fn home_spec(&self) -> Seq<char> {
        self.home.path_spec()
    }

    /// The results folder.
    pub closed spec fn results_spec(&self) -> Seq<char> {
        self.results.path_spec()
    }

    /// A runner of `test` on `compiler`, with the result read before (or a
    /// fresh one), that counts durations after `warm_start_buffer` runs.
    pub fn new(
        test: &'a BenchTestSetup,
        compiler: &'b CompilationNode,
        home: &'c Home,
        results: &'d ResultsFolder,
        warm_start_buffer: usize,
        result: BenchTestResult,
    ) -> (n: Self)
        ensures
            n.test_spec() == *test,
            n.compiler_spec() == *compiler,
            n.home_spec() == home.path_spec(),
            n.results_spec() == results.path_spec(),
            n.result_spec() == result,
            n.warm_start_spec() == warm_start_buffer,
            n.last_output_spec() is None,
    {
        Self { test, compiler, home, results, result, last_command_output: None, warm_start_buffer }
    }

    /// The result gathered so far.
    pub fn result(&self) -> (r: &BenchTestResult)
        ensures
            *r == self.result_spec(),
    {
        &self.result
    }

    /// The output of the last run, if any.
    pub fn last_command_output(&self) -> (o: &Option<CommandOutput>)
        ensures
            *o == self.last_output_spec(),
    {
        &self.last_command_output
    }

    /// Whether the benchmark should run: the commit compiled, and the result
    /// wants more runs.
    pub fn should_run(&self, max_iter: usize, max_failures: usize) -> (b: bool)
        ensures
            b == (all_done(self.compiler_spec().state.statuses())
                && self.result_spec().should_run_spec(max_iter, max_failures)),
    {
        self.compiler.is_done() && self.result.should_run(max_iter, max_failures)
    }

    /// The folders the benchmark's commands see: the commit's install
    /// folder, the benchmark's output folder, its `context` subfolder as
    /// root, and home.
    pub fn env_vars(&self) -> (res: Result<FileEnvVars, Error>)
        ensures
            res matches Ok(e) && {
                let out = output_dir(self.results_spec(), self.compiler_spec(), self.test_spec().name@);
                &&& e.install@ == self.compiler_spec().folder_spec()
                &&& e.output@ == out
                &&& e.root@ == path_join(out, "context"@)
                &&& e.home@ == self.home_spec()
            },
    {
        let id = self.compiler.id();
        let a = join(self.results.path_unchecked(), id.subfolder_name().as_str());
        let output = join(a.as_str(), self.test.name.as_str());
        let root = join(output.as_str(), "context");
        proof {
            reveal_strlit("context");
        }
        Ok(
            FileEnvVars {
                install: id.folder(),
                output,
                root,
                home: to_string(self.home.path()?),
            },
        )
    }

    /// Records the preparation of a run: the result is tied to the setup and
    /// commit hashed as `hash`, and a failed preparation counts as a failed
    /// run.
    pub fn record_setup(&mut self, prepared: Result<(), Error>, hash: u64)
        requires
            old(self).result_spec().failed_count < usize::MAX,
        ensures
            ({
                let h = crate::bench_tests::result::hash_update(
                    old(self).result_spec().hash,
                    old(self).result_spec().failed_count as nat,
                    old(self).result_spec().durations@,
                    hash,
                );
                &&& final(self).result_spec().hash == Some(hash)
                &&& prepared is Ok ==> final(self).result_spec().failed_count == h.1
                    && final(self).result_spec().durations@ == h.2
                &&& prepared is Err ==> final(self).result_spec().failed_count == h.1 + 1
                    && final(self).result_spec().durations@ == Seq::<u64>::empty()
            }),
            final(self).test_spec() == old(self).test_spec(),
            final(self).compiler_spec() == old(self).compiler_spec(),
            final(self).warm_start_spec() == old(self).warm_start_spec(),
    {
        self.result.update_hash(hash);
        if prepared.is_err() {
            self.result.update_result(None);
        }
    }

    /// Records the clean-up after the runs: a failed clean-up counts as a
    /// failed run.
    pub fn record_teardown(&mut self, out: Result<(), Error>)
        requires
            old(self).result_spec().failed_count < usize::MAX,
        ensures
            out is Ok ==> final(self).result_spec() == old(self).result_spec(),
            out is Err ==> final(self).result_spec().failed_count == old(self).result_spec().failed_count
                + 1 && final(self).result_spec().durations@ == Seq::<u64>::empty()
                && final(self).result_spec().hash == old(self).result_spec().hash,
            final(self).test_spec() == old(self).test_spec(),
            final(self).compiler_spec() == old(self).compiler_spec(),
            final(self).warm_start_spec() == old(self).warm_start_spec(),
    {
        if out.is_err() {
            self.result.update_result(None);
        }
    }

    /// `next` is this node after recording the run that gave `output`: the
    /// output is kept; the first runs only warm up and leave the result as
    /// it was; after them the duration of a successful run is added as a
    /// sample, and an unsuccessful run clears the samples and counts as a
    /// failure.
    pub open spec fn after_run(self, next: Self, output: CommandOutput) -> bool {
        &&& next.last_output_spec() == Some(output)
        &&& next.warm_start_spec() == (if self.warm_start_spec() == 0 {
            0
        } else {
            self.warm_start_spec() - 1
        })
        &&& next.warm_start_spec() != 0 ==> next.result_spec() == self.result_spec()
        &&& next.warm_start_spec() == 0 && output.success ==> next.result_spec().durations@
            == self.result_spec().durations@.push(output.duration_ns)
            && next.result_spec().failed_count == self.result_spec().failed_count
        &&& next.warm_start_spec() == 0 && !output.success ==> next.result_spec().durations@
            == Seq::<u64>::empty() && next.result_spec().failed_count == self.result_spec().failed_count + 1
        &&& next.result_spec().hash == self.result_spec().hash
        &&& next.test_spec() == self.test_spec()
        &&& next.compiler_spec() == self.compiler_spec()
    }

    /// Records the output of a benchmark run: the first runs only warm up;
    /// after them the duration of a successful run is a sample, and an
    /// unsuccessful run a failure.
    pub fn record_run(&mut self, output: CommandOutput)
        requires
            old(self).result_spec().failed_count < usize::MAX,
        ensures
            old(self).after_run(*final(self), output),
    {
        let sample = if output.success() {
            Some(output.duration_ns)
        } else {
            None
        };
        self.last_command_output = Some(output);
        self.warm_start_buffer = self.warm_start_buffer.saturating_sub(1);
        if self.warm_start_buffer == 0 {
            self.result.update_result(sample);
        }
    }

    /// Runs the benchmark command with its environment and records the run
    /// as [`TestNode::record_run`] does.
    pub fn run<F: Fn(&Invocation) -> Result<CommandOutput, RunError>>(&mut self, runner: &mut Runner<F>) -> (res:
        Result<&BenchTestResult, Error>)
        requires
            accepts_all(old(runner).fun()),
            old(self).result_spec().failed_count < usize::MAX,
        ensures
            final(runner).fun() == old(runner).fun(),
            exists|e: FileEnvVars, o|
                #![trigger ran(old(runner).fun(), InvocationView::Single(with_env_spec(old(self).test_spec().benchmark_cmd@, e)), o)]
                e.output@ == output_dir(
                    old(self).results_spec(),
                    old(self).compiler_spec(),
                    old(self).test_spec().name@,
                ) && e.install@ == old(self).compiler_spec().folder_spec() && e.root@ == path_join(
                    e.output@,
                    "context"@,
                ) && e.home@ == old(self).home_spec() && ran(
                    old(runner).fun(),
                    InvocationView::Single(with_env_spec(old(self).test_spec().benchmark_cmd@, e)),
                    o,
                ) && final(runner).log() == old(runner).log().push(
                    InvocationView::Single(with_env_spec(old(self).test_spec().benchmark_cmd@, e)),
                ) && match output_result(o) {
                    Err(err) => res == Err::<&BenchTestResult, Error>(err) && *final(self) == *old(
                        self,
                    ),
                    Ok(out) => old(self).after_run(*final(self), out) && (res matches Ok(r)
                        && *r == final(self).result_spec()),
                },
            final(self).test_spec() == old(self).test_spec(),
            final(self).compiler_spec() == old(self).compiler_spec(),
    {
        let env_vars = self.env_vars()?;
        let out = run_test_bench_cmd(&self.test.benchmark_cmd, &env_vars, runner);
        match out {
            Err(e) => Err(e),
            Ok(o) => {
                self.record_run(o);
                Ok(&self.result)
            },
        }
    }
}

} // verus!
