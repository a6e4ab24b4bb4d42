//! Compiling opensim-core, its dependencies and the benchmark sources of a
//! checked out repository with cmake, into the archive.
use vstd::prelude::*;

use crate::command::{
    accepts_all, output_result, parsed_command, ran, trimmed_result, Command, CommandOutput,
    CommandView, Invocation, InvocationView, PipedCommands, RunError, Runner,
};
use crate::error::Error;
use crate::folders::{Archive, BuildFolder, Folder};
use crate::node::cmake::cmake_cmds::{build_command, configure_command};
use crate::repo::{subfolder_outcome, subfolder_run, verify_outcome, verify_run, Repository};
use crate::text::{
    concat, contains, contains_spec, join, lemma_split_on_nonempty, opt_str, opt_view,
    path_join, split, split_on, to_string, views,
};

verus! {

/// The pipeline that is run for a percentage for each line of cmake's
/// output: `echo {line}|grep -o '\[ [0-9]*%'|sed 's/[^0-9]//g'`, one command
/// per piece.
pub open spec fn percentage_pipeline() -> Seq<CommandView> {
    seq![
        parsed_command("echo {line}"@),
        parsed_command("grep -o '\\[ [0-9]*%'"@),
        parsed_command("sed 's/[^0-9]//g'"@),
    ]
}

/// `runner` ran the percentage pipeline and it printed `p`.
pub open spec fn percentage_read<F: Fn(&Invocation) -> Result<CommandOutput, RunError>>(
    runner: F,
    p: Seq<char>,
) -> bool {
    exists|o| #[trigger]
        ran(runner, InvocationView::Piped(percentage_pipeline()), o) && trimmed_result(o) == Ok::<
            Seq<char>,
            Error,
        >(p)
}

/// Collects cmake's output and reads a percentage for each complete line.
pub struct ProgressStreamer {
    buffer: String,
}

impl View for ProgressStreamer {
    type V = Seq<char>;

    closed spec fn view(&self) -> Seq<char> {
        self.buffer@
    }
}

impl ProgressStreamer {
    /// An empty buffer.
    pub fn new() -> (p: Self)
        ensures
            p@ == Seq::<char>::empty(),
    {
        Self { buffer: String::new() }
    }

    /// Appends `text` to the buffer.
    pub fn push(&mut self, text: &str)
        ensures
            final(self)@ == old(self)@ + text@,
    {
        self.buffer.append(text);
    }

    /// For each complete line of the buffer, the percentage that the
    /// percentage pipeline prints; the buffer keeps the last, incomplete
    /// line. A failed run leaves the buffer as it was.
    pub fn pop_line<F: Fn(&Invocation) -> Result<CommandOutput, RunError>>(&mut self, runner: &mut Runner<F>) -> (res:
        Result<Vec<String>, Error>)
        requires
            accepts_all(old(runner).fun()),
        ensures
            final(runner).fun() == old(runner).fun(),
            !contains_spec(old(self)@, seq!['\n']) ==> (res matches Ok(v) && v@.len() == 0)
                && final(self)@ == old(self)@ && final(runner).log() == old(runner).log(),
            contains_spec(old(self)@, seq!['\n']) ==> {
                let pieces = split_on(old(self)@, '\n');
                &&& res is Err ==> final(self)@ == old(self)@
                &&& res matches Ok(v) ==> {
                    &&& final(runner).log() == old(runner).log() + Seq::new(
                        (pieces.len() - 1) as nat,
                        |i: int| InvocationView::Piped(percentage_pipeline()),
                    )
                    &&& v.len() == pieces.len() - 1
                    &&& final(self)@ == pieces.last()
                    &&& forall|i: int|
                        0 <= i < v.len() ==> percentage_read(old(runner).fun(), (#[trigger] v@[i])@)
                }
            },
    {
        proof {
            reveal_strlit("\n");
            assert("\n"@ =~= seq!['\n']);
        }
        if !contains(self.buffer.as_str(), "\n") {
            return Ok(Vec::new());
        }
        let lines = split(self.buffer.as_str(), '\n');
        proof {
            lemma_split_on_nonempty(self.buffer@, '\n');
        }
        let num_lines = lines.len();
        let pipeline = PipedCommands::new(
            vec![
                Command::parse("echo {line}"),
                Command::parse("grep -o '\\[ [0-9]*%'"),
                Command::parse("sed 's/[^0-9]//g'"),
            ],
        );
        assert(pipeline@ =~= percentage_pipeline());
        let ghost inv = InvocationView::Piped(percentage_pipeline());
        let mut out: Vec<String> = Vec::new();
        let mut i: usize = 0;
        while i < num_lines - 1
            invariant
                i <= num_lines - 1,
                num_lines == lines.len(),
                num_lines >= 1,
                self@ == old(self)@,
                contains_spec(old(self)@, seq!['\n']),
                views(lines@) == split_on(old(self)@, '\n'),
                out.len() == i,
                accepts_all(old(runner).fun()),
                runner.fun() == old(runner).fun(),
                pipeline@ == percentage_pipeline(),
                pipeline@.len() >= 2,
                inv == InvocationView::Piped(pipeline@),
                forall|k: int|
                    0 <= k < i ==> percentage_read(old(runner).fun(), (#[trigger] out@[k])@),
                runner.log() == old(runner).log() + Seq::new(
                    i as nat,
                    |j: int| InvocationView::Piped(percentage_pipeline()),
                ),
            decreases num_lines - 1 - i,
        {
            let r = pipeline.run_trim(runner);
            let percentage = match r {
                Ok(p) => p,
                Err(e) => {
                    return Err(e);
                },
            };
            assert(percentage_read(old(runner).fun(), percentage@));
            let ghost before = out@;
            out.push(percentage);
            assert forall|k: int| 0 <= k < i + 1 implies percentage_read(old(runner).fun(), (#[trigger] out@[k])@) by {
                if k < i {
                    assert(out@[k] == before[k]);
                }
            }
            assert(Seq::new((i + 1) as nat, |j: int| InvocationView::Piped(percentage_pipeline())) =~= Seq::new(
                i as nat,
                |j: int| InvocationView::Piped(percentage_pipeline()),
            ).push(InvocationView::Piped(percentage_pipeline())));
            i = i + 1;
        }
        assert(forall|k: int|
            0 <= k < i ==> percentage_read(old(runner).fun(), (#[trigger] out@[k])@));
        self.buffer = lines[num_lines - 1].clone();
        proof {
            assert(views(lines@)[num_lines - 1] == lines@[num_lines - 1]@);
            assert(views(lines@).len() == num_lines);
            assert(self@ == split_on(old(self)@, '\n').last());
            assert(out@.len() == split_on(old(self)@, '\n').len() - 1);
            assert(forall|k: int|
                0 <= k < out@.len() ==> percentage_read(old(runner).fun(), (#[trigger] out@[k])@));
        }
        Ok(out)
    }
}

/// The folders of one cmake compilation.
pub struct CmakeDirs {
    pub source: String,
    pub build: String,
    pub install: String,
    pub dependency: Option<String>,
}

/// Each flag of `args`, as a cmake definition `-Dflag`.
pub open spec fn definitions(args: Seq<Seq<char>>) -> Seq<Seq<char>> {
    args.map_values(|a: Seq<char>| "-D"@ + a)
}

/// The configuration command of `dirs` with the flags `args`.
pub open spec fn cmake_configure(dirs: CmakeDirs, args: Seq<Seq<char>>) -> CommandView {
    configure_command(
        dirs.source@,
        dirs.build@,
        dirs.install@,
        opt_view(dirs.dependency),
        definitions(args),
    )
}

/// What configuring and building gave: the first step that could not run
/// or failed, or the time both took together in nanoseconds, saturated at
/// `u64::MAX`. The runner's log goes from `before` to `after`: the
/// configure command was handed over, and the build command after it only
/// when configuring ran and succeeded.
pub open spec fn cmake_outcome<F: Fn(&Invocation) -> Result<CommandOutput, RunError>>(
    runner: F,
    configure: CommandView,
    build: CommandView,
    before: Seq<InvocationView>,
    after: Seq<InvocationView>,
    res: Result<u64, Error>,
) -> bool {
    exists|c| #[trigger]
        ran(runner, InvocationView::Single(configure), c) && match output_result(c) {
            Err(e) => res == Err::<u64, Error>(e) && after == before.push(InvocationView::Single(configure)),
            Ok(co) => if !co.success {
                res == Err::<u64, Error>(Error::ConfigureFailed(co)) && after == before.push(
                    InvocationView::Single(configure),
                )
            } else {
                after == before.push(InvocationView::Single(configure)).push(InvocationView::Single(build))
                    && exists|b| #[trigger]
                    ran(runner, InvocationView::Single(build), b) && match output_result(b) {
                        Err(e) => res == Err::<u64, Error>(e),
                        Ok(bo) => if !bo.success {
                            res == Err::<u64, Error>(Error::BuildFailed(bo))
                        } else {
                            res == Ok::<u64, Error>(
                                if co.duration_ns + bo.duration_ns > u64::MAX {
                                    u64::MAX
                                } else {
                                    (co.duration_ns + bo.duration_ns) as u64
                                },
                            )
                        },
                    }
            },
        }
}

/// Configures with `configure`, then builds with `build` when configuring
/// succeeded; the outcome is [`cmake_outcome`].
pub fn configure_then_build<F: Fn(&Invocation) -> Result<CommandOutput, RunError>>(
    configure: &Command,
    build: &Command,
    runner: &mut Runner<F>,
) -> (res: Result<u64, Error>)
    requires
        accepts_all(old(runner).fun()),
    ensures
        final(runner).fun() == old(runner).fun(),
        cmake_outcome(old(runner).fun(), configure@, build@, old(runner).log(), final(runner).log(), res),
{
    let c = runner.call(&Invocation::Single(configure.duplicate()));
    assert(ran(old(runner).fun(), InvocationView::Single(configure@), c));
    let config_output = match c {
        Ok(o) => o,
        Err(e) => {
            return Err(Error::Run(e));
        },
    };
    if !config_output.success() {
        return Err(Error::ConfigureFailed(config_output));
    }
    let b = runner.call(&Invocation::Single(build.duplicate()));
    assert(ran(old(runner).fun(), InvocationView::Single(build@), b));
    let build_output = match b {
        Ok(o) => o,
        Err(e) => {
            return Err(Error::Run(e));
        },
    };
    if !build_output.success() {
        return Err(Error::BuildFailed(build_output));
    }
    Ok(config_output.duration_ns.saturating_add(build_output.duration_ns))
}

/// Configures `dirs` with the flags `cmake_args`, each as a definition, then
/// builds `target` (or everything) with `num_jobs` jobs; `runner` streams
/// and logs the output. Gives the time both steps took, in nanoseconds.
pub fn run_cmake_cmd<F: Fn(&Invocation) -> Result<CommandOutput, RunError>>(
    cmake_dirs: &CmakeDirs,
    cmake_args: &[String],
    num_jobs: usize,
    target: Option<&str>,
    runner: &mut Runner<F>,
) -> (res: Result<u64, Error>)
    requires
        accepts_all(old(runner).fun()),
    ensures
        final(runner).fun() == old(runner).fun(),
        cmake_outcome(
            old(runner).fun(),
            cmake_configure(*cmake_dirs, views(cmake_args@)),
            build_command(cmake_dirs.build@, opt_str(target), num_jobs as nat),
            old(runner).log(),
            final(runner).log(),
            res,
        ),
{
    let mut defs: Vec<String> = Vec::new();
    let mut i: usize = 0;
    while i < cmake_args.len()
        invariant
            i <= cmake_args.len(),
            views(defs@) == definitions(views(cmake_args@)).take(i as int),
        decreases cmake_args.len() - i,
    {
        let d = concat("-D", cmake_args[i].as_str());
        let ghost before = defs@;
        defs.push(d);
        assert(views(defs@) =~= views(before).push(d@));
        assert(definitions(views(cmake_args@)).take(i + 1) =~= definitions(views(cmake_args@)).take(
            i as int,
        ).push(d@));
        i = i + 1;
    }
    assert(definitions(views(cmake_args@)).take(cmake_args.len() as int) =~= definitions(
        views(cmake_args@),
    ));
    let configure = crate::node::cmake::CMakeConfigurerer {
        source: cmake_dirs.source.clone(),
        build: cmake_dirs.build.clone(),
        install: cmake_dirs.install.clone(),
        dependency: match &cmake_dirs.dependency {
            Some(d) => Some(d.clone()),
            None => None,
        },
        args: defs,
    }.into_cmd();
    let build = crate::node::cmake::CMakeBuilder {
        build: cmake_dirs.build.clone(),
        target: match target {
            Some(t) => Some(to_string(t)),
            None => None,
        },
        num_jobs,
    }.into_cmd();
    configure_then_build(&configure, &build, runner)
}

/// The cmake flags of a compilation of opensim-core, without the `-D`.
pub struct OSimCoreCmakeConfig {
    common: Vec<String>,
    common_opensim: Vec<String>,
    opensim: Vec<String>,
    dependencies: Vec<String>,
    num_jobs: usize,
}

/// The plain contents of an [`OSimCoreCmakeConfig`].
pub struct OSimCoreCmakeConfigView {
    pub common: Seq<Seq<char>>,
    pub common_opensim: Seq<Seq<char>>,
    pub opensim: Seq<Seq<char>>,
    pub dependencies: Seq<Seq<char>>,
    pub num_jobs: usize,
}

impl View for OSimCoreCmakeConfig {
    type V = OSimCoreCmakeConfigView;

    closed spec fn view(&self) -> OSimCoreCmakeConfigView {
        OSimCoreCmakeConfigView {
            common: views(self.common@),
            common_opensim: views(self.common_opensim@),
            opensim: views(self.opensim@),
            dependencies: views(self.dependencies@),
            num_jobs: self.num_jobs,
        }
    }
}

/// The flags of the default configuration.
pub open spec fn default_osim_config() -> OSimCoreCmakeConfigView {
    OSimCoreCmakeConfigView {
        common: seq!["CMAKE_BUILD_TYPE=RelWithDebInfo"@],
        common_opensim: seq!["OPENSIM_WITH_CASADI=OFF"@, "OPENSIM_WITH_TROPTER=OFF"@],
        opensim: seq![
            "OPENSIM_BUILD_INDIVIDUAL_APPS=OFF"@,
            "OPENSIM_INSTALL_UNIX_FHS=ON"@,
            "BUILD_API_ONLY=OFF"@,
            "BUILD_API_EXAMPLES=OFF"@,
            "BUILD_JAVA_WRAPPING=OFF"@,
            "BUILD_PYTHON_WRAPPING=OFF"@,
            "BUILD_TESTING=ON"@,
        ],
        dependencies: seq![],
        num_jobs: 1,
    }
}

/// Copies of the strings `v`.
fn strings(v: &[&str]) -> (r: Vec<String>)
    ensures
        views(r@) == v@.map_values(|s: &str| s@),
{
    let mut r: Vec<String> = Vec::new();
    let mut i: usize = 0;
    while i < v.len()
        invariant
            i <= v.len(),
            views(r@) == v@.map_values(|s: &str| s@).take(i as int),
        decreases v.len() - i,
    {
        r.push(to_string(v[i]));
        assert(views(r@) =~= views(r@.drop_last()).push(v@[i as int]@));
        assert(v@.map_values(|s: &str| s@).take(i as int + 1) =~= v@.map_values(|s: &str| s@).take(
            i as int,
        ).push(v@[i as int]@));
        i = i + 1;
    }
    assert(v@.map_values(|s: &str| s@).take(v.len() as int) =~= v@.map_values(|s: &str| s@));
    r
}

/// The strings of `a`, then those of `b`, copied.
fn chained(a: &Vec<String>, b: &Vec<String>) -> (r: Vec<String>)
    ensures
        views(r@) == views(a@) + views(b@),
{
    let mut r = crate::command::copy_strings(a);
    let c = crate::command::copy_strings(b);
    let mut i: usize = 0;
    while i < c.len()
        invariant
            i <= c.len(),
            views(c@) == views(b@),
            views(r@) == views(a@) + views(c@).take(i as int),
        decreases c.len() - i,
    {
        let ghost before = r@;
        let x = c[i].clone();
        r.push(x);
        assert(r@ =~= before.push(x));
        assert(views(r@) =~= views(before).push(x@));
        assert(views(c@).take(i + 1) =~= views(c@).take(i as int).push(c@[i as int]@));
        i = i + 1;
    }
    assert(views(c@).take(c.len() as int) =~= views(c@));
    r
}

impl OSimCoreCmakeConfig {
    /// A configuration with the given flags.
    pub fn new(
        common: Vec<String>,
        common_opensim: Vec<String>,
        opensim: Vec<String>,
        dependencies: Vec<String>,
        num_jobs: usize,
    ) -> (c: Self)
        ensures
            c@ == (OSimCoreCmakeConfigView {
                common: views(common@),
                common_opensim: views(common_opensim@),
                opensim: views(opensim@),
                dependencies: views(dependencies@),
                num_jobs,
            }),
    {
        Self { common, common_opensim, opensim, dependencies, num_jobs }
    }

    /// The flags for every target.
    pub fn common(&self) -> (v: &Vec<String>)
        ensures
            views(v@) == self@.common,
    {
        &self.common
    }

    /// The flags for opensim-core and its dependencies.
    pub fn common_opensim(&self) -> (v: &Vec<String>)
        ensures
            views(v@) == self@.common_opensim,
    {
        &self.common_opensim
    }

    /// The flags for opensim-core alone.
    pub fn opensim(&self) -> (v: &Vec<String>)
        ensures
            views(v@) == self@.opensim,
    {
        &self.opensim
    }

    /// The flags for the dependencies alone.
    pub fn dependencies(&self) -> (v: &Vec<String>)
        ensures
            views(v@) == self@.dependencies,
    {
        &self.dependencies
    }

    /// The number of parallel build jobs.
    pub fn num_jobs(&self) -> (n: usize)
        ensures
            n == self@.num_jobs,
    {
        self.num_jobs
    }
}

impl Default for OSimCoreCmakeConfig {
    fn default() -> (c: Self)
        ensures
            c@ == default_osim_config(),
    {
        let c = Self {
            common: strings(&["CMAKE_BUILD_TYPE=RelWithDebInfo"]),
            common_opensim: strings(&["OPENSIM_WITH_CASADI=OFF", "OPENSIM_WITH_TROPTER=OFF"]),
            opensim: strings(
                &[
                    "OPENSIM_BUILD_INDIVIDUAL_APPS=OFF",
                    "OPENSIM_INSTALL_UNIX_FHS=ON",
                    "BUILD_API_ONLY=OFF",
                    "BUILD_API_EXAMPLES=OFF",
                    "BUILD_JAVA_WRAPPING=OFF",
                    "BUILD_PYTHON_WRAPPING=OFF",
                    "BUILD_TESTING=ON",
                ],
            ),
            dependencies: Vec::new(),
            num_jobs: 1,
        };
        assert(c@.common =~= default_osim_config().common);
        assert(c@.common_opensim =~= default_osim_config().common_opensim);
        assert(c@.opensim =~= default_osim_config().opensim);
        assert(c@.dependencies =~= default_osim_config().dependencies);
        c
    }
}

/// One cmake compilation: its folders, flags, jobs, build target and log
/// file.
pub struct CmakeStep {
    pub dirs: CmakeDirs,
    pub args: Vec<String>,
    pub num_jobs: usize,
    pub target: Option<String>,
    pub log: String,
}

/// The three compilations of a commit of opensim-core, in order, and the
/// install folder that holds them.
pub struct CompilePlan {
    pub install: String,
    pub dependencies: CmakeStep,
    pub opensim_core: CmakeStep,
    pub tests_source: CmakeStep,
}

/// How long each compilation took, in nanoseconds.
pub struct CompileTimes {
    pub dependencies: u64,
    pub opensim_core: u64,
    pub tests_source: u64,
}

/// `s` is the step with these folders, flags, jobs, target and log.
pub open spec fn step_is(
    s: CmakeStep,
    source: Seq<char>,
    build: Seq<char>,
    install: Seq<char>,
    dependency: Option<Seq<char>>,
    args: Seq<Seq<char>>,
    num_jobs: usize,
    target: Option<Seq<char>>,
    log: Seq<char>,
) -> bool {
    &&& s.dirs.source@ == source
    &&& s.dirs.build@ == build
    &&& s.dirs.install@ == install
    &&& opt_view(s.dirs.dependency) == dependency
    &&& views(s.args@) == args
    &&& s.num_jobs == num_jobs
    &&& opt_view(s.target) == target
    &&& s.log@ == log
}

/// The plan of compiling the commit checked out in a repository with path
/// `repo`, installed at `install`, built in `build`, with `c`.
pub open spec fn plan_is(
    p: CompilePlan,
    repo: Seq<char>,
    install: Seq<char>,
    build: Seq<char>,
    c: OSimCoreCmakeConfigView,
) -> bool {
    let deps = path_join(install, "dependencies"@);
    let osim = path_join(install, "opensim-core"@);
    &&& p.install@ == install
    &&& step_is(
        p.dependencies,
        path_join(repo, "dependencies"@),
        path_join(build, "opensim-core-dependencies"@),
        deps,
        None,
        c.common + c.dependencies + c.common_opensim,
        c.num_jobs,
        None,
        path_join(install, "simbody-build.log"@),
    )
    &&& step_is(
        p.opensim_core,
        repo,
        path_join(build, "opensim-core"@),
        osim,
        Some(deps),
        c.common + c.opensim + c.common_opensim + seq!["OPENSIM_DEPENDENCIES_DIR="@ + deps],
        c.num_jobs,
        Some("install"@),
        path_join(install, "opensim-build.log"@),
    )
    &&& step_is(
        p.tests_source,
        repo,
        path_join(build, "tests"@),
        install,
        Some(osim + ":"@ + deps),
        c.common,
        c.num_jobs,
        Some("install"@),
        path_join(install, "tests-build.log"@),
    )
}

/// The plan of compiling the commit checked out in `repo` into the archive:
/// the install folder, then the dependencies, opensim-core and the benchmark
/// sources, each with its folders, flags and log. The repository is checked
/// while its install folder and path are asked for.
pub fn compile_plan<F: Fn(&Invocation) -> Result<CommandOutput, RunError>, E: Fn(&str) -> bool>(
    repo: &Repository,
    archive: &Archive,
    build: &BuildFolder,
    config: &OSimCoreCmakeConfig,
    runner: &mut Runner<F>,
    path_exists: &E,
) -> (res: Result<CompilePlan, Error>)
    requires
        accepts_all(old(runner).fun()),
        forall|p: &str| call_requires(*path_exists, (p,)),
    ensures
        final(runner).fun() == old(runner).fun(),
        exists|n: Result<Seq<char>, Error>, l1: Seq<InvocationView>|
            #[trigger] subfolder_run(old(runner).fun(), *path_exists, repo@, repo@.hash, old(runner).log(), l1, n)
                && match n {
                Err(e) => res == Err::<CompilePlan, Error>(e) && final(runner).log() == l1,
                Ok(name) => exists|v: Result<(), Error>|
                    #[trigger] verify_run(old(runner).fun(), *path_exists, repo@, l1, final(runner).log(), v) && match v {
                        Err(e) => res == Err::<CompilePlan, Error>(e),
                        Ok(_) => res matches Ok(p) && p.install@ == path_join(archive.path_spec(), name)
                            && plan_is(p, repo@.path, p.install@, build.path_spec(), config@),
                    },
            },
        exists|n: Result<Seq<char>, Error>|
            #[trigger] subfolder_outcome(old(runner).fun(), *path_exists, repo@, repo@.hash, n) && match n {
                Err(e) => res == Err::<CompilePlan, Error>(e),
                Ok(name) => exists|v: Result<(), Error>|
                    #[trigger] verify_outcome(old(runner).fun(), *path_exists, repo@, v) && match v {
                        Err(e) => res == Err::<CompilePlan, Error>(e),
                        Ok(_) => res matches Ok(p) && p.install@ == path_join(archive.path_spec(), name)
                            && plan_is(p, repo@.path, p.install@, build.path_spec(), config@),
                    },
            },
{
    let ghost l0 = runner.log();
    let install = match repo.install_folder(archive, runner, path_exists) {
        Ok(i) => i,
        Err(e) => {
            return Err(e);
        },
    };
    let ghost l1 = runner.log();
    let ghost name = choose|n: Result<Seq<char>, Error>|
        subfolder_run(old(runner).fun(), *path_exists, repo@, repo@.hash, l0, l1, n) && match n {
            Err(_) => false,
            Ok(name) => install@ == path_join(archive.path_spec(), name),
        };
    let repo_path = match repo.path(runner, path_exists) {
        Ok(p) => p,
        Err(e) => {
            return Err(e);
        },
    };
    let install_dependencies = join(install.as_str(), "dependencies");
    let install_opensim_core = join(install.as_str(), "opensim-core");
    let deps_arg = concat("OPENSIM_DEPENDENCIES_DIR=", install_dependencies.as_str());
    let mut both = to_string(install_opensim_core.as_str());
    both.append(":");
    both.append(install_dependencies.as_str());
    let deps_args = chained(&chained(&config.common, &config.dependencies), &config.common_opensim);
    let mut osim_args = chained(&chained(&config.common, &config.opensim), &config.common_opensim);
    let ghost before = osim_args@;
    osim_args.push(deps_arg);
    assert(views(osim_args@) =~= views(before).push(deps_arg@));
    let build_path = build.path()?;
    assert(verify_outcome(old(runner).fun(), *path_exists, repo@, Ok(())));
    assert(views(deps_args@) == config@.common + config@.dependencies + config@.common_opensim);
    assert(views(osim_args@) == config@.common + config@.opensim + config@.common_opensim + seq![
        "OPENSIM_DEPENDENCIES_DIR="@ + install_dependencies@,
    ]);
    let dependencies = CmakeStep {
        dirs: CmakeDirs {
            source: join(repo_path.as_str(), "dependencies"),
            build: join(build_path, "opensim-core-dependencies"),
            install: install_dependencies.clone(),
            dependency: None,
        },
        args: deps_args,
        num_jobs: config.num_jobs,
        target: None,
        log: join(install.as_str(), "simbody-build.log"),
    };
    let opensim_core = CmakeStep {
        dirs: CmakeDirs {
            source: repo_path.clone(),
            build: join(build_path, "opensim-core"),
            install: install_opensim_core.clone(),
            dependency: Some(install_dependencies.clone()),
        },
        args: osim_args,
        num_jobs: config.num_jobs,
        target: Some(to_string("install")),
        log: join(install.as_str(), "opensim-build.log"),
    };
    let tests_source = CmakeStep {
        dirs: CmakeDirs {
            source: repo_path.clone(),
            build: join(build_path, "tests"),
            install: install.clone(),
            dependency: Some(both),
        },
        args: crate::command::copy_strings(&config.common),
        num_jobs: config.num_jobs,
        target: Some(to_string("install")),
        log: join(install.as_str(), "tests-build.log"),
    };
    Ok(CompilePlan { install, dependencies, opensim_core, tests_source })
}

/// What running the step `s` with `runner` gave: configuring it, then
/// building its target, as [`run_cmake_cmd`] does, with the runner's log
/// going from `before` to `after`.
pub open spec fn step_outcome<F: Fn(&Invocation) -> Result<CommandOutput, RunError>>(
    runner: F,
    s: CmakeStep,
    before: Seq<InvocationView>,
    after: Seq<InvocationView>,
    res: Result<u64, Error>,
) -> bool {
    cmake_outcome(
        runner,
        cmake_configure(s.dirs, views(s.args@)),
        build_command(s.dirs.build@, opt_view(s.target), s.num_jobs as nat),
        before,
        after,
        res,
    )
}

/// Runs one step of a plan with `runner`.
fn run_step<F: Fn(&Invocation) -> Result<CommandOutput, RunError>>(s: &CmakeStep, runner: &mut Runner<F>) -> (res:
    Result<u64, Error>)
    requires
        accepts_all(old(runner).fun()),
    ensures
        final(runner).fun() == old(runner).fun(),
        step_outcome(old(runner).fun(), *s, old(runner).log(), final(runner).log(), res),
{
    let target: Option<&str> = match &s.target {
        Some(t) => Some(t.as_str()),
        None => None,
    };
    assert(opt_str(target) == opt_view(s.target));
    run_cmake_cmd(&s.dirs, s.args.as_slice(), s.num_jobs, target, runner)
}

/// Compiles the plan: the dependencies, then opensim-core, then the
/// benchmark sources, each step with its own runner (which keeps that
/// step's log). Before opensim-core and before the benchmark sources the
/// repository is checked again with `git`, as before the plan was made.
/// Stops at the first check or step that fails: the runners of the later
/// steps are then handed nothing. Gives how long each step took.
pub fn run_compile_plan<
    G: Fn(&Invocation) -> Result<CommandOutput, RunError>,
    E: Fn(&str) -> bool,
    F1: Fn(&Invocation) -> Result<CommandOutput, RunError>,
    F2: Fn(&Invocation) -> Result<CommandOutput, RunError>,
    F3: Fn(&Invocation) -> Result<CommandOutput, RunError>,
>(
    plan: &CompilePlan,
    repo: &Repository,
    git: &mut Runner<G>,
    path_exists: &E,
    dependencies: &mut Runner<F1>,
    opensim_core: &mut Runner<F2>,
    tests_source: &mut Runner<F3>,
) -> (res: Result<CompileTimes, Error>)
    requires
        accepts_all(old(git).fun()),
        forall|p: &str| call_requires(*path_exists, (p,)),
        accepts_all(old(dependencies).fun()),
        accepts_all(old(opensim_core).fun()),
        accepts_all(old(tests_source).fun()),
    ensures
        final(git).fun() == old(git).fun(),
        final(dependencies).fun() == old(dependencies).fun(),
        final(opensim_core).fun() == old(opensim_core).fun(),
        final(tests_source).fun() == old(tests_source).fun(),
        exists|r1: Result<u64, Error>|
            #[trigger] step_outcome(
                old(dependencies).fun(),
                plan.dependencies,
                old(dependencies).log(),
                final(dependencies).log(),
                r1,
            ) && match r1 {
                Err(e) => res == Err::<CompileTimes, Error>(e) && final(git).log() == old(git).log()
                    && final(opensim_core).log() == old(opensim_core).log()
                    && final(tests_source).log() == old(tests_source).log(),
                Ok(d1) => exists|v2: Result<(), Error>, g2: Seq<InvocationView>|
                    #[trigger] verify_run(old(git).fun(), *path_exists, repo@, old(git).log(), g2, v2)
                        && match v2 {
                        Err(e) => res == Err::<CompileTimes, Error>(e) && final(git).log() == g2
                            && final(opensim_core).log() == old(opensim_core).log()
                            && final(tests_source).log() == old(tests_source).log(),
                        Ok(_) => exists|r2: Result<u64, Error>|
                            #[trigger] step_outcome(
                                old(opensim_core).fun(),
                                plan.opensim_core,
                                old(opensim_core).log(),
                                final(opensim_core).log(),
                                r2,
                            ) && match r2 {
                                Err(e) => res == Err::<CompileTimes, Error>(e) && final(git).log() == g2
                                    && final(tests_source).log() == old(tests_source).log(),
                                Ok(d2) => exists|v3: Result<(), Error>|
                                    #[trigger] verify_run(old(git).fun(), *path_exists, repo@, g2, final(git).log(), v3)
                                        && match v3 {
                                        Err(e) => res == Err::<CompileTimes, Error>(e)
                                            && final(tests_source).log() == old(tests_source).log(),
                                        Ok(_) => exists|r3: Result<u64, Error>|
                                            #[trigger] step_outcome(
                                                old(tests_source).fun(),
                                                plan.tests_source,
                                                old(tests_source).log(),
                                                final(tests_source).log(),
                                                r3,
                                            ) && match r3 {
                                                Err(e) => res == Err::<CompileTimes, Error>(e),
                                                Ok(d3) => res matches Ok(t) && t.dependencies == d1
                                                    && t.opensim_core == d2 && t.tests_source == d3,
                                            },
                                    },
                            },
                    },
            },
{
    let ghost l1 = dependencies.log();
    let ghost l2 = opensim_core.log();
    let ghost l3 = tests_source.log();
    let ghost g1 = git.log();
    let r1 = run_step(&plan.dependencies, dependencies);
    let ghost m1 = dependencies.log();
    let d1 = match r1 {
        Ok(d) => d,
        Err(e) => {
            return Err(e);
        },
    };
    let c2 = repo.path(git, path_exists);
    let ghost g2 = git.log();
    let ghost v2 = choose|v: Result<(), Error>|
        verify_run(old(git).fun(), *path_exists, repo@, g1, g2, v) && match v {
            Err(e) => c2 == Err::<&String, Error>(e),
            Ok(_) => c2 is Ok,
        };
    if let Err(e) = c2 {
        assert(step_outcome(old(dependencies).fun(), plan.dependencies, l1, m1, Ok::<u64, Error>(d1)));
        assert(verify_run(old(git).fun(), *path_exists, repo@, g1, g2, v2));
        return Err(e);
    }
    let r2 = run_step(&plan.opensim_core, opensim_core);
    let ghost m2 = opensim_core.log();
    let d2 = match r2 {
        Ok(d) => d,
        Err(e) => {
            assert(step_outcome(old(dependencies).fun(), plan.dependencies, l1, m1, Ok::<u64, Error>(d1)));
            assert(verify_run(old(git).fun(), *path_exists, repo@, g1, g2, v2));
            return Err(e);
        },
    };
    let c3 = repo.path(git, path_exists);
    let ghost g3 = git.log();
    let ghost v3 = choose|v: Result<(), Error>|
        verify_run(old(git).fun(), *path_exists, repo@, g2, g3, v) && match v {
            Err(e) => c3 == Err::<&String, Error>(e),
            Ok(_) => c3 is Ok,
        };
    if let Err(e) = c3 {
        assert(step_outcome(old(dependencies).fun(), plan.dependencies, l1, m1, Ok::<u64, Error>(d1)));
        assert(verify_run(old(git).fun(), *path_exists, repo@, g1, g2, v2));
        assert(step_outcome(old(opensim_core).fun(), plan.opensim_core, l2, m2, Ok::<u64, Error>(d2)));
        assert(verify_run(old(git).fun(), *path_exists, repo@, g2, g3, v3));
        return Err(e);
    }
    let r3 = run_step(&plan.tests_source, tests_source);
    let d3 = match r3 {
        Ok(d) => d,
        Err(e) => {
            assert(step_outcome(old(dependencies).fun(), plan.dependencies, l1, m1, Ok::<u64, Error>(d1)));
            assert(verify_run(old(git).fun(), *path_exists, repo@, g1, g2, v2));
            assert(step_outcome(old(opensim_core).fun(), plan.opensim_core, l2, m2, Ok::<u64, Error>(d2)));
            assert(verify_run(old(git).fun(), *path_exists, repo@, g2, g3, v3));
            return Err(e);
        },
    };
    assert(step_outcome(old(dependencies).fun(), plan.dependencies, l1, m1, Ok::<u64, Error>(d1)));
    assert(verify_run(old(git).fun(), *path_exists, repo@, g1, g2, v2));
    assert(step_outcome(old(opensim_core).fun(), plan.opensim_core, l2, m2, Ok::<u64, Error>(d2)));
    assert(verify_run(old(git).fun(), *path_exists, repo@, g2, g3, v3));
    Ok(CompileTimes { dependencies: d1, opensim_core: d2, tests_source: d3 })
}

} // verus!
