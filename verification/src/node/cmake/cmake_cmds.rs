//! The cmake commands that configure and build one target.
use vstd::prelude::*;

use super::config::{cmake_args_spec, CMakeConfig};
use crate::command::{
    accepts_all, output_result, printed_command, ran, Command, CommandOutput, CommandView,
    Invocation, InvocationView, RunError, Runner,
};
use crate::cmake::{cmake_outcome, configure_then_build};
use crate::error::Error;
use crate::folders::{BuildFolder, Folder, Home};
use crate::node::repo::repo::RepositoryState;
use crate::node::repo::Id;
use crate::node::target::CompilationTarget;
use crate::node::{install_path, path_to_build, path_to_install, path_to_source, source_path};
use crate::text::{concat, decimal, format_decimal, opt_view, path_join, to_string, views};

verus! {

/// The cmake configuration step: where the sources are, where to build and
/// install, where the dependency is installed, and the flags.
pub struct CMakeConfigurerer {
    pub source: String,
    pub build: String,
    pub install: String,
    pub dependency: Option<String>,
    pub args: Vec<String>,
}

/// The command of the configuration step.
pub open spec fn configure_command(
    source: Seq<char>,
    build: Seq<char>,
    install: Seq<char>,
    dependency: Option<Seq<char>>,
    args: Seq<Seq<char>>,
) -> CommandView {
    CommandView {
        cmd: "cmake"@,
        args: seq!["-B"@, build, "-S"@, source] + (match dependency {
            Some(d) => seq!["-DCMAKE_PREFIX_PATH="@ + d],
            None => Seq::empty(),
        }) + seq!["-DCMAKE_INSTALL_PREFIX="@ + install] + args,
        envs: Seq::empty(),
        root: None,
    }
}

impl CMakeConfigurerer {
    /// The command of the configuration step.
    pub fn into_cmd(self) -> (c: Command)
        ensures
            c@ == configure_command(
                self.source@,
                self.build@,
                self.install@,
                opt_view(self.dependency),
                views(self.args@),
            ),
    {
        let mut cmd = Command::new("cmake");
        cmd.add_arg("-B");
        cmd.add_arg(self.build.as_str());
        cmd.add_arg("-S");
        cmd.add_arg(self.source.as_str());
        let ghost before_dep = cmd@.args;
        if let Some(dir) = self.dependency.as_ref() {
            cmd.add_arg(concat("-DCMAKE_PREFIX_PATH=", dir.as_str()).as_str());
        }
        let ghost after_dep = cmd@.args;
        cmd.add_arg(concat("-DCMAKE_INSTALL_PREFIX=", self.install.as_str()).as_str());
        cmd.add_args(self.args.as_slice());
        proof {
            let dep = opt_view(self.dependency);
            let want = configure_command(
                self.source@,
                self.build@,
                self.install@,
                dep,
                views(self.args@),
            );
            assert(before_dep =~= seq!["-B"@, self.build@, "-S"@, self.source@]);
            assert(after_dep =~= before_dep + (match dep {
                Some(d) => seq!["-DCMAKE_PREFIX_PATH="@ + d],
                None => Seq::<Seq<char>>::empty(),
            }));
            assert(cmd@.args =~= want.args);
        }
        cmd
    }
}

/// The cmake build step: the build folder, the target to build if any, and
/// the number of parallel jobs.
pub struct CMakeBuilder {
    pub build: String,
    pub target: Option<String>,
    pub num_jobs: usize,
}

/// The command of the build step.
pub open spec fn build_command(build: Seq<char>, target: Option<Seq<char>>, num_jobs: nat) -> CommandView {
    CommandView {
        cmd: "cmake"@,
        args: seq!["--build"@, build] + (match target {
            Some(t) => seq!["--target"@, t],
            None => Seq::empty(),
        }) + seq!["-j"@ + decimal(num_jobs)],
        envs: Seq::empty(),
        root: None,
    }
}

impl CMakeBuilder {
    /// The command of the build step.
    pub fn into_cmd(self) -> (c: Command)
        ensures
            c@ == build_command(
                self.build@,
                opt_view(self.target),
                self.num_jobs as nat,
            ),
    {
        let mut cmd = Command::new("cmake");
        cmd.add_arg("--build");
        cmd.add_arg(self.build.as_str());
        let ghost before = cmd@.args;
        if let Some(t) = self.target.as_ref() {
            cmd.add_arg("--target");
            cmd.add_arg(t.as_str());
        }
        let ghost middle = cmd@.args;
        let mut jobs = to_string("-j");
        jobs.append(format_decimal(self.num_jobs).as_str());
        cmd.add_arg(jobs.as_str());
        proof {
            let t = opt_view(self.target);
            assert(before =~= seq!["--build"@, self.build@]);
            assert(middle =~= before + (match t {
                Some(x) => seq!["--target"@, x],
                None => Seq::<Seq<char>>::empty(),
            }));
            assert(cmd@.args =~= build_command(self.build@, t, self.num_jobs as nat).args);
        }
        cmd
    }
}

/// The two cmake commands of a target.
pub struct CMakeCmds {
    configure: Command,
    build: Command,
}

/// Where the target that `target` depends on is installed.
pub open spec fn dependency_of(target: CompilationTarget, folder: Seq<char>) -> Option<Seq<char>> {
    match target {
        CompilationTarget::Dependencies => None,
        CompilationTarget::OpenSimCore => Some(
            install_path(CompilationTarget::Dependencies, folder),
        ),
        CompilationTarget::TestsSource => Some(install_path(CompilationTarget::OpenSimCore, folder)),
    }
}

/// The flags `target` is configured with: those of the config, and for
/// opensim-core where its dependencies are installed.
pub open spec fn target_args(c: super::config::CMakeConfigView, target: CompilationTarget, folder: Seq<
    char,
>) -> Seq<Seq<char>> {
    match target {
        CompilationTarget::OpenSimCore => cmake_args_spec(c, target).push(
            "-DOPENSIM_DEPENDENCIES_DIR="@ + install_path(CompilationTarget::Dependencies, folder),
        ),
        _ => cmake_args_spec(c, target),
    }
}

/// The target that the build step builds: none for the dependencies,
/// `install` otherwise.
pub open spec fn build_target(target: CompilationTarget) -> Option<Seq<char>> {
    match target {
        CompilationTarget::Dependencies => None,
        _ => Some("install"@),
    }
}

/// The text of `print_pretty`.
pub open spec fn pretty(configure: CommandView, build: CommandView) -> Seq<char> {
    "configure command: "@ + printed_command(configure, " \\\n    "@) + "\nbuild command: "@
        + printed_command(build, " \\\n    "@)
}

impl CMakeCmds {
    /// The configuration command.
    pub closed spec fn configure_spec(&self) -> CommandView {
        self.configure@
    }

    /// The build command.
    pub closed spec fn build_spec(&self) -> CommandView {
        self.build@
    }

    /// The commands that configure and build `compile_target` of the commit of
    /// `id`, checked out in `repo`.
    pub fn new<'a>(
        id: &Id<'a>,
        repo: &RepositoryState,
        home: &Home,
        build: &BuildFolder,
        config: &CMakeConfig,
        compile_target: CompilationTarget,
    ) -> (res: Result<Self, Error>)
        ensures
            res matches Ok(c) && {
                let folder = id.folder_spec();
                let build_dir = path_join(build.path_spec(), compile_target.name_spec());
                &&& c.configure_spec() == configure_command(
                    source_path(compile_target, home.path_spec(), repo.path_spec()),
                    build_dir,
                    install_path(compile_target, folder),
                    dependency_of(compile_target, folder),
                    target_args(config@, compile_target, folder),
                )
                &&& c.build_spec() == build_command(
                    build_dir,
                    build_target(compile_target),
                    config@.num_jobs as nat,
                )
            },
    {
        let dependency = match compile_target {
            CompilationTarget::Dependencies => None,
            CompilationTarget::OpenSimCore => Some(
                path_to_install(CompilationTarget::Dependencies, id),
            ),
            CompilationTarget::TestsSource => Some(
                path_to_install(CompilationTarget::OpenSimCore, id),
            ),
        };
        let source = path_to_source(compile_target, home, repo)?;
        let target = match compile_target {
            CompilationTarget::Dependencies => None,
            CompilationTarget::OpenSimCore => Some(to_string("install")),
            CompilationTarget::TestsSource => Some(to_string("install")),
        };
        let mut args = config.cmake_args(compile_target);
        if let CompilationTarget::OpenSimCore = compile_target {
            let dir = path_to_install(CompilationTarget::Dependencies, id);
            let add_arg = concat("-DOPENSIM_DEPENDENCIES_DIR=", dir.as_str());
            args.push(add_arg);
            proof {
                assert(views(args@) =~= views(args@.drop_last()).push(add_arg@));
            }
        }
        let ghost dep = opt_view(dependency);
        assert(dep == dependency_of(compile_target, id.folder_spec()));
        assert(views(args@) == target_args(config@, compile_target, id.folder_spec()));
        let configure = CMakeConfigurerer {
            source,
            build: path_to_build(compile_target, build)?,
            install: path_to_install(compile_target, id),
            args,
            dependency,
        }.into_cmd();
        let build = CMakeBuilder {
            build: path_to_build(compile_target, build)?,
            target,
            num_jobs: config.num_jobs(),
        }.into_cmd();
        Ok(Self { configure, build })
    }

    /// Runs the configuration step, then the build step, with `runner`, and
    /// returns how long both took in nanoseconds (saturated at `u64::MAX`);
    /// the build step is not handed over when configuring failed.
    pub fn run<F: Fn(&Invocation) -> Result<CommandOutput, RunError>>(&self, runner: &mut Runner<F>) -> (res:
        Result<u64, Error>)
        requires
            accepts_all(old(runner).fun()),
        ensures
            final(runner).fun() == old(runner).fun(),
            cmake_outcome(
                old(runner).fun(),
                self.configure_spec(),
                self.build_spec(),
                old(runner).log(),
                final(runner).log(),
                res,
            ),
    {
        configure_then_build(&self.configure, &self.build, runner)
    }

    /// The two commands, one argument per line.
    pub fn print_pretty(&self) -> (s: String)
        ensures
            s@ == pretty(self.configure_spec(), self.build_spec()),
    {
        let mut s = to_string("configure command: ");
        s.append(self.configure.print_command_with_delim(" \\\n    ").as_str());
        s.append("\nbuild command: ");
        s.append(self.build.print_command_with_delim(" \\\n    ").as_str());
        s
    }
}

/// Each target is built against the install of the target compiled just
/// before it, of the same commit: its configure command puts that install
/// on `CMAKE_PREFIX_PATH`. The first target, the dependencies, is built
/// against nothing.
pub proof fn law_built_on_the_target_before(
    target: CompilationTarget,
    before: CompilationTarget,
    folder: Seq<char>,
    source: Seq<char>,
    build: Seq<char>,
    args: Seq<Seq<char>>,
)
    ensures
        target.index_spec() == 0 ==> dependency_of(target, folder) is None,
        target.index_spec() == before.index_spec() + 1 ==> {
            &&& dependency_of(target, folder) == Some(path_join(folder, before.name_spec()))
            &&& configure_command(
                source,
                build,
                install_path(target, folder),
                dependency_of(target, folder),
                args,
            ).args[4] == "-DCMAKE_PREFIX_PATH="@ + path_join(folder, before.name_spec())
        },
{
}

} // verus!
