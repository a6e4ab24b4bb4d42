//! Running the commands of a benchmark in its environment.
use vstd::prelude::*;
use crate::command::Runner;

use crate::command::{
    accepts_all, output_result, ran, stdout_result, Command, CommandOutput, CommandView, Invocation,
    InvocationView, RunError,
};
use crate::error::Error;
use crate::text::{join, path_join, to_string};

verus! {

/// The environment variable holding the install folder.
pub const ENV_VAR_TEST_INSTALL: &'static str = "OSIMPERF_INSTALL";

/// The environment variable holding the output folder.
pub const ENV_VAR_TEST_OUTPUT: &'static str = "OSIMPERF_OUTPUT";

/// The root of the results folder: results/scratch
pub const ENV_VAR_TEST_ROOT: &'static str = "OSIMPERF_ROOT";

/// Home directory of osimperf repo. Can be used to locate setup files.
pub const ENV_VAR_TEST_HOME: &'static str = "OSIMPERF_HOME";

/// The folders a benchmark command sees through its environment.
pub struct FileEnvVars {
    /// Contains opensim-core, simbody, and test binary installs.
    pub install: String,
    /// Folder for collecting simulation output files.
    pub output: String,
    /// Directory from which this command is run.
    pub root: String,
    /// Absolute path to home directory of this project.
    pub home: String,
}

/// The search path built from the opensim-core install in `install`.
pub open spec fn search_path(install: Seq<char>) -> Seq<char> {
    let i = path_join(install, "opensim-core"@);
    "/bin:"@ + i + ":"@ + i + "/lib:"@ + i + "/include"@
}

/// `c` with the environment of `env` added and run from its root.
pub open spec fn with_env_spec(c: CommandView, env: FileEnvVars) -> CommandView {
    CommandView {
        envs: c.envs + seq![
            (ENV_VAR_TEST_OUTPUT@, env.output@),
            (ENV_VAR_TEST_ROOT@, env.root@),
            (ENV_VAR_TEST_INSTALL@, env.install@),
            (ENV_VAR_TEST_HOME@, env.home@),
            ("PATH"@, search_path(env.install@)),
            ("LD_LIBRARY_PATH"@, search_path(env.install@)),
        ],
        root: Some(env.root@),
        ..c
    }
}

impl FileEnvVars {
    /// Adds all environmental variables and sets working directory to the
    /// root.
    pub fn add_env(&self, cmd: &mut Command)
        ensures
            final(cmd)@ == with_env_spec(old(cmd)@, *self),
    {
        cmd.add_env_path(ENV_VAR_TEST_OUTPUT, self.output.as_str());
        cmd.add_env_path(ENV_VAR_TEST_ROOT, self.root.as_str());
        cmd.add_env_path(ENV_VAR_TEST_INSTALL, self.install.as_str());
        cmd.add_env_path(ENV_VAR_TEST_HOME, self.home.as_str());
        let install = join(self.install.as_str(), "opensim-core");
        let mut path = to_string("/bin:");
        path.append(install.as_str());
        path.append(":");
        path.append(install.as_str());
        path.append("/lib:");
        path.append(install.as_str());
        path.append("/include");
        cmd.add_env("PATH", path.as_str());
        cmd.add_env("LD_LIBRARY_PATH", path.as_str());
        cmd.set_run_root(self.root.as_str());
        proof {
            assert(path@ == search_path(self.install@));
            assert(cmd@.envs =~= with_env_spec(old(cmd)@, *self).envs);
        }
    }

    /// `cmd` with all environmental variables added and run from the root.
    pub fn with_env(&self, cmd: Command) -> (c: Command)
        ensures
            c@ == with_env_spec(cmd@, *self),
    {
        let mut cmd = cmd;
        self.add_env(&mut cmd);
        cmd
    }
}

/// The value the variable `key` has in a command with the environment
/// `envs`: that of its last setting, as a later setting overrides an
/// earlier one.
pub open spec fn env_value(envs: Seq<(Seq<char>, Seq<char>)>, key: Seq<char>) -> Option<Seq<char>>
    decreases envs.len(),
{
    if envs.len() == 0 {
        None
    } else if envs.last().0 == key {
        Some(envs.last().1)
    } else {
        env_value(envs.drop_last(), key)
    }
}

/// `v` is a `:`-separated search path that holds `entry` as one of its
/// entries, between two others.
pub open spec fn holds_entry(v: Seq<char>, entry: Seq<char>) -> bool {
    exists|pre: Seq<char>, post: Seq<char>| v == pre + ":"@ + entry + ":"@ + post
}

/// A command run with the environment of `env` is the same program with the
/// same arguments, runs from the root folder,
/// sees the install folder in `OSIMPERF_INSTALL`, and looks for programs
/// and for shared libraries in the same search path, which starts at
/// `/bin` and holds the opensim-core install of the commit and its `lib`
/// folder: the benchmark finds the opensim libraries it was compiled
/// against, whatever the command had set before.
pub proof fn law_benchmark_finds_its_libraries(c: CommandView, env: FileEnvVars)
    ensures
        ({
            let e = with_env_spec(c, env);
            let osim = path_join(env.install@, "opensim-core"@);
            &&& e.cmd == c.cmd && e.args == c.args
            &&& e.root == Some(env.root@)
            &&& env_value(e.envs, "LD_LIBRARY_PATH"@) == env_value(e.envs, "PATH"@)
            &&& env_value(e.envs, "LD_LIBRARY_PATH"@) matches Some(v) && v.take(5) == "/bin:"@
                && holds_entry(v, osim + "/lib"@) && holds_entry(v, osim)
            &&& env_value(e.envs, ENV_VAR_TEST_INSTALL@) == Some(env.install@)
            &&& env_value(e.envs, ENV_VAR_TEST_OUTPUT@) == Some(env.output@)
            &&& env_value(e.envs, ENV_VAR_TEST_ROOT@) == Some(env.root@)
            &&& env_value(e.envs, ENV_VAR_TEST_HOME@) == Some(env.home@)
        }),
{
    reveal_strlit("LD_LIBRARY_PATH");
    reveal_strlit("PATH");
    reveal_strlit("OSIMPERF_INSTALL");
    reveal_strlit("OSIMPERF_OUTPUT");
    reveal_strlit("OSIMPERF_ROOT");
    reveal_strlit("OSIMPERF_HOME");
    reveal_strlit("/bin:");
    reveal_strlit(":");
    reveal_strlit("/lib:");
    reveal_strlit("/lib");
    reveal_strlit("/include");
    let e = with_env_spec(c, env);
    let osim = path_join(env.install@, "opensim-core"@);
    let v = search_path(env.install@);
    let e5 = e.envs.drop_last();
    let e4 = e5.drop_last();
    let e3 = e4.drop_last();
    let e2 = e3.drop_last();
    let e1 = e2.drop_last();
    assert(e.envs.last() == ("LD_LIBRARY_PATH"@, v));
    assert(e5.last() == ("PATH"@, v));
    assert(e4.last() == (ENV_VAR_TEST_HOME@, env.home@));
    assert(e3.last() == (ENV_VAR_TEST_INSTALL@, env.install@));
    assert(e2.last() == (ENV_VAR_TEST_ROOT@, env.root@));
    assert(e1.last() == (ENV_VAR_TEST_OUTPUT@, env.output@));
    assert("LD_LIBRARY_PATH"@[0] != "PATH"@[0]);
    assert("OSIMPERF_HOME"@.len() != "PATH"@.len() && "OSIMPERF_HOME"@.len() != "LD_LIBRARY_PATH"@.len());
    assert(ENV_VAR_TEST_HOME@ != ENV_VAR_TEST_INSTALL@ && ENV_VAR_TEST_HOME@ != ENV_VAR_TEST_ROOT@
        && ENV_VAR_TEST_HOME@ != ENV_VAR_TEST_OUTPUT@) by {
        assert("OSIMPERF_HOME"@[9] != "OSIMPERF_INSTALL"@[9]);
        assert("OSIMPERF_HOME"@[9] != "OSIMPERF_ROOT"@[9]);
        assert("OSIMPERF_HOME"@[9] != "OSIMPERF_OUTPUT"@[9]);
    }
    assert(ENV_VAR_TEST_INSTALL@ != ENV_VAR_TEST_ROOT@ && ENV_VAR_TEST_INSTALL@ != ENV_VAR_TEST_OUTPUT@
        && ENV_VAR_TEST_ROOT@ != ENV_VAR_TEST_OUTPUT@) by {
        assert("OSIMPERF_INSTALL"@[9] != "OSIMPERF_ROOT"@[9]);
        assert("OSIMPERF_INSTALL"@[9] != "OSIMPERF_OUTPUT"@[9]);
        assert("OSIMPERF_ROOT"@[9] != "OSIMPERF_OUTPUT"@[9]);
    }
    assert("OSIMPERF_INSTALL"@.len() != "PATH"@.len() && "OSIMPERF_INSTALL"@[0] != "LD_LIBRARY_PATH"@[0]);
    assert("OSIMPERF_ROOT"@.len() != "PATH"@.len() && "OSIMPERF_ROOT"@[0] != "LD_LIBRARY_PATH"@[0]);
    assert("OSIMPERF_OUTPUT"@.len() != "PATH"@.len() && "OSIMPERF_OUTPUT"@[0] != "LD_LIBRARY_PATH"@[0]);
    assert(env_value(e.envs, "LD_LIBRARY_PATH"@) == Some(v));
    assert(env_value(e.envs, "PATH"@) == env_value(e5, "PATH"@));
    assert(env_value(e5, "PATH"@) == Some(v));
    assert(v =~= ("/bin:"@ + osim) + ":"@ + (osim + "/lib"@) + ":"@ + (osim + "/include"@));
    assert("/bin:"@ =~= "/bin"@ + ":"@) by {
        reveal_strlit("/bin");
    }
    assert(v =~= "/bin"@ + ":"@ + osim + ":"@ + (osim + "/lib"@ + ":"@ + osim + "/include"@));
    assert(holds_entry(v, osim + "/lib"@));
    assert(holds_entry(v, osim));
    assert(v.take(5) =~= "/bin:"@);
    assert(env_value(e.envs, ENV_VAR_TEST_HOME@) == env_value(e5, ENV_VAR_TEST_HOME@));
    assert(env_value(e5, ENV_VAR_TEST_HOME@) == env_value(e4, ENV_VAR_TEST_HOME@));
    assert(env_value(e4, ENV_VAR_TEST_HOME@) == Some(env.home@));
    assert(env_value(e.envs, ENV_VAR_TEST_INSTALL@) == env_value(e5, ENV_VAR_TEST_INSTALL@));
    assert(env_value(e5, ENV_VAR_TEST_INSTALL@) == env_value(e4, ENV_VAR_TEST_INSTALL@));
    assert(env_value(e4, ENV_VAR_TEST_INSTALL@) == env_value(e3, ENV_VAR_TEST_INSTALL@));
    assert(env_value(e3, ENV_VAR_TEST_INSTALL@) == Some(env.install@));
    assert(env_value(e.envs, ENV_VAR_TEST_ROOT@) == env_value(e5, ENV_VAR_TEST_ROOT@));
    assert(env_value(e5, ENV_VAR_TEST_ROOT@) == env_value(e4, ENV_VAR_TEST_ROOT@));
    assert(env_value(e4, ENV_VAR_TEST_ROOT@) == env_value(e3, ENV_VAR_TEST_ROOT@));
    assert(env_value(e3, ENV_VAR_TEST_ROOT@) == env_value(e2, ENV_VAR_TEST_ROOT@));
    assert(env_value(e2, ENV_VAR_TEST_ROOT@) == Some(env.root@));
    assert(env_value(e.envs, ENV_VAR_TEST_OUTPUT@) == env_value(e5, ENV_VAR_TEST_OUTPUT@));
    assert(env_value(e5, ENV_VAR_TEST_OUTPUT@) == env_value(e4, ENV_VAR_TEST_OUTPUT@));
    assert(env_value(e4, ENV_VAR_TEST_OUTPUT@) == env_value(e3, ENV_VAR_TEST_OUTPUT@));
    assert(env_value(e3, ENV_VAR_TEST_OUTPUT@) == env_value(e2, ENV_VAR_TEST_OUTPUT@));
    assert(env_value(e2, ENV_VAR_TEST_OUTPUT@) == env_value(e1, ENV_VAR_TEST_OUTPUT@));
    assert(env_value(e1, ENV_VAR_TEST_OUTPUT@) == Some(env.output@));
}

/// `runner` ran the commands `cmds` in order until one failed, and `res` is
/// the first failure, or `Ok` when none failed; `log` is what was handed to
/// the runner: the commands up to and including the first that failed,
/// and no other.
pub open spec fn ran_in_order<F: Fn(&Invocation) -> Result<CommandOutput, RunError>>(
    runner: F,
    cmds: Seq<CommandView>,
    log: Seq<InvocationView>,
    res: Result<(), Error>,
) -> bool
    decreases cmds.len(),
{
    if cmds.len() == 0 {
        res is Ok && log.len() == 0
    } else {
        log.len() > 0 && log[0] == InvocationView::Single(cmds[0]) && exists|o| #[trigger]
            ran(runner, InvocationView::Single(cmds[0]), o) && match stdout_result(o) {
                Err(e) => res == Err::<(), Error>(e) && log.len() == 1,
                Ok(_) => ran_in_order(runner, cmds.drop_first(), log.drop_first(), res),
            }
    }
}

/// The commands of `cmds`, each with the environment of `env`.
pub open spec fn with_env_all(cmds: Seq<Command>, env: FileEnvVars) -> Seq<CommandView> {
    cmds.map_values(|c: Command| with_env_spec(c@, env))
}

/// Runs each command of `cmds` with the environment of `env`, in order,
/// stopping at the first that fails.
fn run_all_with_env<F: Fn(&Invocation) -> Result<CommandOutput, RunError>>(
    cmds: &[Command],
    env: &FileEnvVars,
    runner: &mut Runner<F>,
) -> (res: Result<(), Error>)
    requires
        accepts_all(old(runner).fun()),
    ensures
        final(runner).fun() == old(runner).fun(),
        final(runner).log().take(old(runner).log().len() as int) == old(runner).log(),
        final(runner).log().len() >= old(runner).log().len(),
        ran_in_order(
            old(runner).fun(),
            with_env_all(cmds@, *env),
            final(runner).log().skip(old(runner).log().len() as int),
            res,
        ),
{
    let ghost all = with_env_all(cmds@, *env);
    let ghost start = runner.log();
    assert(all.skip(0) =~= all);
    let mut i: usize = 0;
    while i < cmds.len()
        invariant
            i <= cmds.len(),
            accepts_all(old(runner).fun()),
            runner.fun() == old(runner).fun(),
            start == old(runner).log(),
            all == with_env_all(cmds@, *env),
            runner.log().len() >= start.len(),
            runner.log().take(start.len() as int) == start,
            forall|r: Result<(), Error>, t: Seq<InvocationView>|
                ran_in_order(old(runner).fun(), #[trigger] all.skip(i as int), t, r) ==> ran_in_order(
                    old(runner).fun(),
                    all,
                    runner.log().skip(start.len() as int) + t,
                    r,
                ),
        decreases cmds.len() - i,
    {
        let c = env.with_env(cmds[i].duplicate());
        let ghost rest = all.skip(i as int);
        let ghost before = runner.log();
        assert(rest[0] == c@);
        assert(rest.drop_first() =~= all.skip(i as int + 1));
        let out = c.run(runner);
        let ghost step = seq![InvocationView::Single(c@)];
        assert(runner.log() =~= before + step);
        assert(runner.log().take(start.len() as int) =~= before.take(start.len() as int));
        assert(runner.log().skip(start.len() as int) =~= before.skip(start.len() as int) + step);
        match out {
            Err(e) => {
                proof {
                    let o = choose|o| #[trigger]
                        ran(old(runner).fun(), InvocationView::Single(c@), o) && crate::command::sres(out)
                            == stdout_result(o);
                    assert(step.drop_first() =~= Seq::<InvocationView>::empty());
                    assert(ran_in_order(old(runner).fun(), rest, step, Err(e)));
                    assert(before.skip(start.len() as int) + step =~= runner.log().skip(start.len() as int));
                }
                return Err(e);
            },
            Ok(_) => {
                proof {
                    assert forall|r: Result<(), Error>, t: Seq<InvocationView>|
                        ran_in_order(old(runner).fun(), #[trigger] all.skip(i as int + 1), t, r) implies ran_in_order(
                        old(runner).fun(),
                        all,
                        runner.log().skip(start.len() as int) + t,
                        r,
                    ) by {
                        let o = choose|o| #[trigger]
                            ran(old(runner).fun(), InvocationView::Single(c@), o) && crate::command::sres(out)
                                == stdout_result(o);
                        let t2 = step + t;
                        assert(t2.drop_first() =~= t);
                        assert(t2[0] == InvocationView::Single(c@));
                        assert(ran_in_order(old(runner).fun(), rest, t2, r));
                        assert(before.skip(start.len() as int) + t2 =~= runner.log().skip(start.len() as int) + t);
                    }
                }
            },
        }
        i = i + 1;
    }
    proof {
        assert(all.skip(cmds.len() as int).len() == 0);
        assert(ran_in_order(old(runner).fun(), all.skip(cmds.len() as int), Seq::<InvocationView>::empty(), Ok(())));
        assert(runner.log().skip(start.len() as int) + Seq::<InvocationView>::empty() =~= runner.log().skip(
            start.len() as int,
        ));
    }
    Ok(())
}

/// Runs the commands that prepare a benchmark, each with the environment of
/// `env`, in order, stopping at the first that fails. The output folder and
/// the context are prepared before.
pub fn run_pre_test_cmds<F: Fn(&Invocation) -> Result<CommandOutput, RunError>>(
    cmds: &[Command],
    env: &FileEnvVars,
    runner: &mut Runner<F>,
) -> (res: Result<(), Error>)
    requires
        accepts_all(old(runner).fun()),
    ensures
        final(runner).fun() == old(runner).fun(),
        final(runner).log().take(old(runner).log().len() as int) == old(runner).log(),
        final(runner).log().len() >= old(runner).log().len(),
        ran_in_order(
            old(runner).fun(),
            with_env_all(cmds@, *env),
            final(runner).log().skip(old(runner).log().len() as int),
            res,
        ),
{
    run_all_with_env(cmds, env, runner)
}

/// Runs the commands that follow a benchmark, each with the environment of
/// `env`, in order, stopping at the first that fails. The logs are written
/// before.
pub fn run_post_test_cmds<F: Fn(&Invocation) -> Result<CommandOutput, RunError>>(
    cmds: &[Command],
    env: &FileEnvVars,
    runner: &mut Runner<F>,
) -> (res: Result<(), Error>)
    requires
        accepts_all(old(runner).fun()),
    ensures
        final(runner).fun() == old(runner).fun(),
        final(runner).log().take(old(runner).log().len() as int) == old(runner).log(),
        final(runner).log().len() >= old(runner).log().len(),
        ran_in_order(
            old(runner).fun(),
            with_env_all(cmds@, *env),
            final(runner).log().skip(old(runner).log().len() as int),
            res,
        ),
{
    run_all_with_env(cmds, env, runner)
}

/// Runs the benchmark command with the environment of `env` and returns all
/// it produced, with the time it took.
pub fn run_test_bench_cmd<F: Fn(&Invocation) -> Result<CommandOutput, RunError>>(
    cmd: &Command,
    env: &FileEnvVars,
    runner: &mut Runner<F>,
) -> (res: Result<CommandOutput, Error>)
    requires
        accepts_all(old(runner).fun()),
    ensures
        final(runner).fun() == old(runner).fun(),
        final(runner).log() == old(runner).log().push(InvocationView::Single(with_env_spec(cmd@, *env))),
        exists|o| #[trigger]
            ran(old(runner).fun(), InvocationView::Single(with_env_spec(cmd@, *env)), o) && res
                == output_result(o),
{
    let benchmark_cmd = env.with_env(cmd.duplicate());
    benchmark_cmd.run_and_time(runner)
}

} // verus!
