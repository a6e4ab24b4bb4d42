//! The cmake flags each target is compiled with, and the dated variants of
//! them.
use vstd::prelude::*;

use super::super::target::CompilationTarget;
use crate::common::git::Date;
use crate::error::Error;
use crate::folders::{Folder, Home};
use crate::text::{
    chars_of, contains, contains_spec, file_name, file_name_spec, join, path_join, string_of_range,
    to_string, views,
};

verus! {

/// The cmake flags to compile with: some for every target, some for a few
/// of them, and the number of parallel jobs.
#[derive(Clone, Debug, Hash)]
pub struct CMakeConfig {
    common: Vec<String>,
    opensim: Vec<String>,
    dependencies: Vec<String>,
    opensim_and_dependencies: Vec<String>,
    tests: Vec<String>,
    pub num_jobs: usize,
}

/// The plain contents of a [`CMakeConfig`].
pub struct CMakeConfigView {
    pub common: Seq<Seq<char>>,
    pub opensim: Seq<Seq<char>>,
    pub dependencies: Seq<Seq<char>>,
    pub opensim_and_dependencies: Seq<Seq<char>>,
    pub tests: Seq<Seq<char>>,
    pub num_jobs: usize,
}

impl View for CMakeConfig {
    type V = CMakeConfigView;

    closed spec fn view(&self) -> CMakeConfigView {
        CMakeConfigView {
            common: views(self.common@),
            opensim: views(self.opensim@),
            dependencies: views(self.dependencies@),
            opensim_and_dependencies: views(self.opensim_and_dependencies@),
            tests: views(self.tests@),
            num_jobs: self.num_jobs,
        }
    }
}

/// The flags `target` is configured with: the common ones first, then those
/// shared by opensim-core and its dependencies, then the target's own.
pub open spec fn cmake_args_spec(c: CMakeConfigView, target: CompilationTarget) -> Seq<Seq<char>> {
    match target {
        CompilationTarget::OpenSimCore => c.common + c.opensim_and_dependencies + c.opensim,
        CompilationTarget::Dependencies => c.common + c.opensim_and_dependencies + c.dependencies,
        CompilationTarget::TestsSource => c.common + c.tests,
    }
}

/// Appends copies of the strings of `src` to `out`.
fn append_copies(out: &mut Vec<String>, src: &Vec<String>)
    ensures
        views(final(out)@) == views(old(out)@) + views(src@),
{
    let ghost start = views(out@);
    let mut i: usize = 0;
    while i < src.len()
        invariant
            i <= src.len(),
            views(out@) == start + views(src@).take(i as int),
        decreases src.len() - i,
    {
        let ghost old_out = out@;
        let s = src[i].clone();
        out.push(s);
        assert(out@ =~= old_out.push(s));
        assert(views(out@) =~= views(old_out).push(s@));
        assert(views(src@).take(i as int + 1) =~= views(src@).take(i as int).push(src@[i as int]@));
        i = i + 1;
    }
    assert(views(src@).take(src.len() as int) =~= views(src@));
}

/// The flags of the default configuration.
pub open spec fn default_cmake_config() -> CMakeConfigView {
    CMakeConfigView {
        common: seq!["-DCMAKE_BUILD_TYPE=RelWithDebInfo"@],
        opensim: seq![
            "-DOPENSIM_BUILD_INDIVIDUAL_APPS=OFF"@,
            "-DOPENSIM_INSTALL_UNIX_FHS=ON"@,
            "-DBUILD_API_ONLY=OFF"@,
            "-DBUILD_API_EXAMPLES=OFF"@,
            "-DBUILD_JAVA_WRAPPING=OFF"@,
            "-DBUILD_PYTHON_WRAPPING=OFF"@,
            "-DBUILD_TESTING=OFF"@,
            "-DOPENSIM_DOXYGEN_USE_MATHJAX=OFF"@,
        ],
        dependencies: seq![],
        opensim_and_dependencies: seq![
            "-DOPENSIM_WITH_CASADI=OFF"@,
            "-DOPENSIM_WITH_TROPTER=OFF"@,
        ],
        tests: seq![],
        num_jobs: 3,
    }
}

/// The strings of `v`, copied into a vector.
fn strings(v: &[&str]) -> (r: Vec<String>)
    ensures
        views(r@) == v@.map_values(|s: &str| s@),
{
    let mut r: Vec<String> = Vec::new();
    let mut i: usize = 0;
    while i < v.len()
        invariant
            i <= v.len(),
            views(r@) == v@.map_values(|s: &str| s@).take(i as int),
        decreases v.len() - i,
    {
        r.push(to_string(v[i]));
        assert(views(r@) =~= views(r@.drop_last()).push(v@[i as int]@));
        assert(v@.map_values(|s: &str| s@).take(i as int + 1) =~= v@.map_values(|s: &str| s@).take(
            i as int,
        ).push(v@[i as int]@));
        i = i + 1;
    }
    assert(v@.map_values(|s: &str| s@).take(v.len() as int) =~= v@.map_values(|s: &str| s@));
    r
}

impl CMakeConfig {
    /// A configuration with the given flags.
    pub fn new(
        common: Vec<String>,
        opensim: Vec<String>,
        dependencies: Vec<String>,
        opensim_and_dependencies: Vec<String>,
        tests: Vec<String>,
        num_jobs: usize,
    ) -> (c: Self)
        ensures
            c@ == (CMakeConfigView {
                common: views(common@),
                opensim: views(opensim@),
                dependencies: views(dependencies@),
                opensim_and_dependencies: views(opensim_and_dependencies@),
                tests: views(tests@),
                num_jobs,
            }),
    {
        Self { common, opensim, dependencies, opensim_and_dependencies, tests, num_jobs }
    }

    /// The number of parallel build jobs.
    pub fn num_jobs(&self) -> (n: usize)
        ensures
            n == self@.num_jobs,
    {
        self.num_jobs
    }

    /// The flags for every target.
    pub fn common(&self) -> (v: &Vec<String>)
        ensures
            views(v@) == self@.common,
    {
        &self.common
    }

    /// The flags for opensim-core alone.
    pub fn opensim(&self) -> (v: &Vec<String>)
        ensures
            views(v@) == self@.opensim,
    {
        &self.opensim
    }

    /// The flags for the dependencies alone.
    pub fn dependencies(&self) -> (v: &Vec<String>)
        ensures
            views(v@) == self@.dependencies,
    {
        &self.dependencies
    }

    /// The flags for opensim-core and its dependencies.
    pub fn opensim_and_dependencies(&self) -> (v: &Vec<String>)
        ensures
            views(v@) == self@.opensim_and_dependencies,
    {
        &self.opensim_and_dependencies
    }

    /// The flags for the benchmark sources alone.
    pub fn tests(&self) -> (v: &Vec<String>)
        ensures
            views(v@) == self@.tests,
    {
        &self.tests
    }

    /// A copy of this configuration.
    pub fn duplicate(&self) -> (c: Self)
        ensures
            c@ == self@,
    {
        let mut common = Vec::new();
        append_copies(&mut common, &self.common);
        let mut opensim = Vec::new();
        append_copies(&mut opensim, &self.opensim);
        let mut dependencies = Vec::new();
        append_copies(&mut dependencies, &self.dependencies);
        let mut both = Vec::new();
        append_copies(&mut both, &self.opensim_and_dependencies);
        let mut tests = Vec::new();
        append_copies(&mut tests, &self.tests);
        proof {
            assert(views(Seq::<String>::empty()) =~= Seq::<Seq<char>>::empty());
        }
        Self {
            common,
            opensim,
            dependencies,
            opensim_and_dependencies: both,
            tests,
            num_jobs: self.num_jobs,
        }
    }

    /// The flags `target` is configured with.
    pub fn cmake_args(&self, target: CompilationTarget) -> (args: Vec<String>)
        ensures
            views(args@) == cmake_args_spec(self@, target),
    {
        let mut args: Vec<String> = Vec::new();
        proof {
            assert(views(args@) =~= Seq::<Seq<char>>::empty());
        }
        append_copies(&mut args, &self.common);
        match target {
            CompilationTarget::OpenSimCore => {
                append_copies(&mut args, &self.opensim_and_dependencies);
                append_copies(&mut args, &self.opensim);
            },
            CompilationTarget::Dependencies => {
                append_copies(&mut args, &self.opensim_and_dependencies);
                append_copies(&mut args, &self.dependencies);
            },
            CompilationTarget::TestsSource => {
                append_copies(&mut args, &self.tests);
            },
        }
        args
    }
}

impl Default for CMakeConfig {
    fn default() -> (c: Self)
        ensures
            c@ == default_cmake_config(),
    {
        let common = strings(&["-DCMAKE_BUILD_TYPE=RelWithDebInfo"]);
        let opensim = strings(
            &[
                "-DOPENSIM_BUILD_INDIVIDUAL_APPS=OFF",
                "-DOPENSIM_INSTALL_UNIX_FHS=ON",
                "-DBUILD_API_ONLY=OFF",
                "-DBUILD_API_EXAMPLES=OFF",
                "-DBUILD_JAVA_WRAPPING=OFF",
                "-DBUILD_PYTHON_WRAPPING=OFF",
                "-DBUILD_TESTING=OFF",
                "-DOPENSIM_DOXYGEN_USE_MATHJAX=OFF",
            ],
        );
        let both = strings(&["-DOPENSIM_WITH_CASADI=OFF", "-DOPENSIM_WITH_TROPTER=OFF"]);
        let c = Self {
            common,
            opensim,
            opensim_and_dependencies: both,
            num_jobs: 3,
            dependencies: Vec::new(),
            tests: Vec::new(),
        };
        assert(c@.common =~= default_cmake_config().common);
        assert(c@.opensim =~= default_cmake_config().opensim);
        assert(c@.opensim_and_dependencies =~= default_cmake_config().opensim_and_dependencies);
        assert(c@.dependencies =~= default_cmake_config().dependencies);
        assert(c@.tests =~= default_cmake_config().tests);
        c
    }
}

/// The file name of the default cmake config.
pub const DEFAULT_CMAKE_CONFIG_FILE_NAME: &'static str = "osimperf-cmake.conf";

/// The start of the file name of a dated cmake config.
pub const DATED_CMAKE_CONFIG_FILE_NAME_PREFIX: &'static str = "osimperf-cmake-before-";

/// The subfolder of home that holds all cmake configs.
pub const DEFAULT_CMAKE_CONFIG_DIR: &'static str = "compile-flags";

/// The default config, and the dated ones ordered by their dates.
pub struct CMakeConfigReader {
    default_config: CMakeConfig,
    dated_configs: Vec<(Date, CMakeConfig)>,
}

/// The dates of `v`, in order.
pub open spec fn dates_of(v: Seq<(Date, CMakeConfig)>) -> Seq<Date> {
    v.map_values(|p: (Date, CMakeConfig)| p.0)
}

/// `d` is ordered: no date comes before the one ahead of it.
pub open spec fn dates_sorted(d: Seq<Date>) -> bool {
    forall|i: int, j: int| 0 <= i < j < d.len() ==> !#[trigger] d[j].before(#[trigger] d[i])
}

/// Of the configs `v`, the first whose date comes after `date`, if any.
pub open spec fn first_after(v: Seq<(Date, CMakeConfig)>, date: Date) -> Option<int>
    decreases v.len(),
{
    if v.len() == 0 {
        None
    } else if date.before(v[0].0) {
        Some(0)
    } else {
        match first_after(v.drop_first(), date) {
            Some(i) => Some(i + 1),
            None => None,
        }
    }
}

/// The config of the dated configs `v`, or else the default one `dflt`, that
/// applies to a commit of `date`.
pub open spec fn config_for(dflt: CMakeConfig, v: Seq<(Date, CMakeConfig)>, date: Date) -> CMakeConfig {
    match first_after(v, date) {
        Some(i) => v[i].1,
        None => dflt,
    }
}

proof fn lemma_first_after_range(v: Seq<(Date, CMakeConfig)>, date: Date)
    ensures
        first_after(v, date) matches Some(i) ==> 0 <= i < v.len() && date.before(v[i].0) && (
        forall|j: int| 0 <= j < i ==> !date.before(#[trigger] v[j].0)),
        first_after(v, date) is None ==> forall|j: int|
            0 <= j < v.len() ==> !date.before(#[trigger] v[j].0),
    decreases v.len(),
{
    if v.len() > 0 {
        let r = v.drop_first();
        lemma_first_after_range(r, date);
        if !date.before(v[0].0) {
            match first_after(r, date) {
                Some(k) => {
                    assert(v[k + 1] == r[k]);
                    assert forall|j: int| 0 <= j < k + 1 implies !date.before(#[trigger] v[j].0) by {
                        if j > 0 {
                            assert(v[j] == r[j - 1]);
                        }
                    }
                },
                None => {
                    assert forall|j: int| 0 <= j < v.len() implies !date.before(#[trigger] v[j].0) by {
                        if j > 0 {
                            assert(v[j] == r[j - 1]);
                        }
                    }
                },
            }
        }
    }
}

proof fn lemma_first_after_unique(v: Seq<(Date, CMakeConfig)>, date: Date, k: int)
    requires
        0 <= k < v.len(),
        date.before(v[k].0),
        forall|j: int| 0 <= j < k ==> !date.before(#[trigger] v[j].0),
    ensures
        first_after(v, date) == Some(k),
    decreases v.len(),
{
    if k > 0 {
        assert forall|j: int| 0 <= j < k - 1 implies !date.before(#[trigger] v.drop_first()[j].0) by {
            assert(v.drop_first()[j] == v[j + 1]);
        }
        lemma_first_after_unique(v.drop_first(), date, k - 1);
    }
}

proof fn lemma_first_after_none(v: Seq<(Date, CMakeConfig)>, date: Date)
    requires
        forall|j: int| 0 <= j < v.len() ==> !date.before(#[trigger] v[j].0),
    ensures
        first_after(v, date) is None,
    decreases v.len(),
{
    if v.len() > 0 {
        assert forall|j: int| 0 <= j < v.len() - 1 implies !date.before(
            #[trigger] v.drop_first()[j].0,
        ) by {
            assert(v.drop_first()[j] == v[j + 1]);
        }
        lemma_first_after_none(v.drop_first(), date);
    }
}

impl CMakeConfigReader {
    /// The default config.
    pub closed spec fn default_spec(&self) -> CMakeConfig {
        self.default_config
    }

    /// The dated configs, in order.
    pub closed spec fn dated_spec(&self) -> Seq<(Date, CMakeConfig)> {
        self.dated_configs@
    }

    /// The configs are ordered by date.
    pub open spec fn wf(&self) -> bool {
        dates_sorted(dates_of(self.dated_spec()))
    }

    /// The path of the default cmake config in home.
    pub fn default_path(home: &Home) -> (p: String)
        ensures
            p@ == path_join(
                path_join(home.path_spec(), DEFAULT_CMAKE_CONFIG_DIR@),
                DEFAULT_CMAKE_CONFIG_FILE_NAME@,
            ),
    {
        join(Self::config_dir(home).as_str(), DEFAULT_CMAKE_CONFIG_FILE_NAME)
    }

    /// The folder of home searched for cmake configs.
    pub fn config_dir(home: &Home) -> (p: String)
        ensures
            p@ == path_join(home.path_spec(), DEFAULT_CMAKE_CONFIG_DIR@),
    {
        join(home.path_unchecked(), DEFAULT_CMAKE_CONFIG_DIR)
    }

    /// A reader with the default config and no dated one.
    pub fn new(default_config: CMakeConfig) -> (r: Self)
        ensures
            r.wf(),
            r.default_spec() == default_config,
            r.dated_spec() == Seq::<(Date, CMakeConfig)>::empty(),
    {
        let r = Self { default_config, dated_configs: Vec::new() };
        assert(dates_of(r.dated_spec()) =~= Seq::<Date>::empty());
        r
    }

    /// Adds a config dated `date`, after every config not dated later, as a
    /// stable sort of the configs by date puts it.
    pub fn add_dated(&mut self, date: Date, config: CMakeConfig)
        requires
            old(self).wf(),
        ensures
            final(self).wf(),
            final(self).default_spec() == old(self).default_spec(),
            ({
                exists|i: int|
                    #![trigger final(self).dated_spec()[i]]
                    0 <= i <= old(self).dated_spec().len() && final(self).dated_spec()
                        == old(self).dated_spec().insert(i, (date, config)) && (forall|j: int|
                        0 <= j < i ==> !date.before(#[trigger] old(self).dated_spec()[j].0)) && (
                    forall|j: int|
                        i <= j < old(self).dated_spec().len() ==> date.before(
                            #[trigger] old(self).dated_spec()[j].0,
                        ))
            }),
    {
        let ghost old_v = self.dated_configs@;
        let mut i: usize = 0;
        while i < self.dated_configs.len() && !date.is_before(&self.dated_configs[i].0)
            invariant
                self.dated_configs@ == old_v,
                i <= self.dated_configs.len(),
                forall|j: int| 0 <= j < i ==> !date.before(#[trigger] old_v[j].0),
            decreases self.dated_configs.len() - i,
        {
            i = i + 1;
        }
        proof {
            let d = dates_of(old_v);
            assert forall|j: int| i <= j < old_v.len() implies date.before(#[trigger] old_v[j].0) by {
                assert(date.before(old_v[i as int].0));
                assert(d[i as int] == old_v[i as int].0);
                assert(d[j] == old_v[j].0);
                if i < j {
                    assert(!d[j].before(d[i as int]));
                }
            }
        }
        self.dated_configs.insert(i, (date, config));
        proof {
            let nv = self.dated_configs@;
            assert(nv == old_v.insert(i as int, (date, config)));
            let d = dates_of(nv);
            let od = dates_of(old_v);
            assert forall|a: int, b: int| 0 <= a < b < d.len() implies !#[trigger] d[b].before(
                #[trigger] d[a],
            ) by {
                assert(d[a] == nv[a].0);
                assert(d[b] == nv[b].0);
                if a < i && b < i {
                    assert(nv[a] == old_v[a] && nv[b] == old_v[b]);
                    assert(od[a] == old_v[a].0 && od[b] == old_v[b].0);
                } else if a < i && b == i {
                    assert(nv[a] == old_v[a]);
                } else if a < i && b > i {
                    assert(nv[a] == old_v[a] && nv[b] == old_v[b - 1]);
                    assert(od[a] == old_v[a].0 && od[b - 1] == old_v[b - 1].0);
                } else if a == i {
                    assert(nv[b] == old_v[b - 1]);
                } else {
                    assert(nv[a] == old_v[a - 1] && nv[b] == old_v[b - 1]);
                    assert(od[a - 1] == old_v[a - 1].0 && od[b - 1] == old_v[b - 1].0);
                }
            }
            assert(nv[i as int] == (date, config));
            assert(self.dated_spec()[i as int] == (date, config));
        }
    }

    /// Returns the config that is dated to be after the given date, or the
    /// default config if there is none.
    pub fn get(&self, date: &Date) -> (c: &CMakeConfig)
        ensures
            *c == config_for(self.default_spec(), self.dated_spec(), *date),
    {
        let mut i: usize = 0;
        while i < self.dated_configs.len()
            invariant
                i <= self.dated_configs.len(),
                forall|j: int| 0 <= j < i ==> !date.before(#[trigger] self.dated_configs@[j].0),
            decreases self.dated_configs.len() - i,
        {
            if date.is_before(&self.dated_configs[i].0) {
                proof {
                    lemma_first_after_unique(self.dated_configs@, *date, i as int);
                }
                return &self.dated_configs[i].1;
            }
            i = i + 1;
        }
        proof {
            lemma_first_after_none(self.dated_configs@, *date);
        }
        &self.default_config
    }
}

/// The date in the file name of a dated cmake config: the ten characters
/// after as many characters as the prefix has.
pub open spec fn dated_file_date(name: Seq<char>) -> Seq<char> {
    name.subrange(
        DATED_CMAKE_CONFIG_FILE_NAME_PREFIX@.len() as int,
        DATED_CMAKE_CONFIG_FILE_NAME_PREFIX@.len() as int + 10,
    )
}

/// What the file at `path` is: `Ok(None)` when it is no dated cmake config,
/// the date of the config otherwise, or why the date could not be read.
pub open spec fn dated_config_spec(path: Seq<char>) -> Result<Option<Date>, Error> {
    match file_name_spec(path) {
        None => Ok(None),
        Some(name) => if !contains_spec(name, DATED_CMAKE_CONFIG_FILE_NAME_PREFIX@) {
            Ok(None)
        } else if name.len() < DATED_CMAKE_CONFIG_FILE_NAME_PREFIX@.len() + 10 {
            Err(Error::MalformedDate)
        } else {
            match crate::common::git::parsed_date(dated_file_date(name)) {
                Some((y, m, d)) => Ok(Some(Date { year: y, month: m, day: d })),
                None => Err(Error::MalformedDate),
            }
        },
    }
}

/// The date of the dated cmake config at `path`, if it is one.
pub fn dated_config_date(path: &str) -> (r: Result<Option<Date>, Error>)
    ensures
        r == dated_config_spec(path@),
{
    let name = match file_name(path) {
        Some(n) => n,
        None => {
            return Ok(None);
        },
    };
    if !contains(name.as_str(), DATED_CMAKE_CONFIG_FILE_NAME_PREFIX) {
        return Ok(None);
    }
    let v = chars_of(name.as_str());
    let start: usize = 22;
    proof {
        reveal_strlit("osimperf-cmake-before-");
    }
    assert(DATED_CMAKE_CONFIG_FILE_NAME_PREFIX@.len() == 22);
    if v.len() < start + 10 {
        return Err(Error::MalformedDate);
    }
    let s = string_of_range(&v, start, start + 10);
    match Date::parse(s.as_str()) {
        Some(d) => Ok(Some(d)),
        None => Err(Error::MalformedDate),
    }
}

} // verus!
