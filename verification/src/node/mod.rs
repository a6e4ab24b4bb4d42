//! Compiling commits of opensim-core: targets, their statuses, and where
//! their files go.
use vstd::prelude::*;
use crate::command::Runner;

pub mod cmake;
pub mod focus;
pub mod installed_size;
pub mod repo;
pub mod status;
pub mod target;

pub use cmake::{CMakeBuilder, CMakeCmds, CMakeConfig, CMakeConfigReader, CMakeConfigurerer};
pub use focus::Focus;
pub use installed_size::folder_size;
pub use repo::Id;
pub use status::{Progress, State, Status};
pub use target::CompilationTarget;

use crate::command::{accepts_all, CommandOutput, Invocation, InvocationView, RunError};
use crate::common::git::{parsed_date, Commit, Date};
use installed_size::{du_command, measured};
use crate::error::Error;
use crate::folders::{Archive, BuildFolder, Folder, Home};
use crate::text::{join, path_join, to_string};
use repo::repo::{Repository, RepositoryState};

verus! {

/// Where `target` of the commit whose folder is `folder` is installed.
pub open spec fn install_path(target: CompilationTarget, folder: Seq<char>) -> Seq<char> {
    path_join(folder, target.name_spec())
}

/// Where `target` of the commit of `id` is installed.
pub fn path_to_install<'a>(target: CompilationTarget, id: &Id<'a>) -> (p: String)
    ensures
        p@ == install_path(target, id.folder_spec()),
{
    join(id.folder().as_str(), target.to_str())
}

/// The sources of `target`: the repository itself, its `dependencies`
/// folder, or the `source` folder of home.
pub open spec fn source_path(target: CompilationTarget, home: Seq<char>, repo: Seq<char>) -> Seq<
    char,
> {
    match target {
        CompilationTarget::OpenSimCore => repo,
        CompilationTarget::Dependencies => path_join(repo, "dependencies"@),
        CompilationTarget::TestsSource => path_join(home, "source"@),
    }
}

/// The sources of `target`.
pub fn path_to_source(target: CompilationTarget, home: &Home, repo: &RepositoryState) -> (res:
    Result<String, Error>)
    ensures
        res matches Ok(p) && p@ == source_path(target, home.path_spec(), repo.path_spec()),
{
    proof {
        reveal_strlit("dependencies");
        reveal_strlit("source");
    }
    Ok(
        match target {
            CompilationTarget::OpenSimCore => repo.path().clone(),
            CompilationTarget::Dependencies => join(repo.path().as_str(), "dependencies"),
            CompilationTarget::TestsSource => join(home.path()?, "source"),
        },
    )
}

/// Where `target` is built: its own folder in the build folder.
pub fn path_to_build(target: CompilationTarget, build: &BuildFolder) -> (res: Result<String, Error>)
    ensures
        res matches Ok(p) && p@ == path_join(build.path_spec(), target.name_spec()),
{
    Ok(join(build.path()?, target.to_str()))
}

/// All three statuses are `Done`.
pub open spec fn all_done(s: Seq<Status>) -> bool {
    forall|i: int| 0 <= i < 3 ==> #[trigger] s[i] is Done
}

/// Some status is `Error`.
pub open spec fn any_failed(s: Seq<Status>) -> bool {
    exists|i: int| 0 <= i < 3 && #[trigger] s[i] is Error
}

/// The position of the target to compile next, going through the targets
/// in order: the first one not done, unless it failed.
pub open spec fn next_index(s: Seq<Status>) -> Option<nat> {
    if !(s[0] is Done) {
        if s[0] is Error {
            None
        } else {
            Some(0)
        }
    } else if !(s[1] is Done) {
        if s[1] is Error {
            None
        } else {
            Some(1)
        }
    } else if !(s[2] is Done) {
        if s[2] is Error {
            None
        } else {
            Some(2)
        }
    } else {
        None
    }
}

/// How many of the three statuses are `Done`.
pub open spec fn done_count(s: Seq<Status>) -> nat {
    (if s[0] is Done {
        1nat
    } else {
        0nat
    }) + (if s[1] is Done {
        1nat
    } else {
        0nat
    }) + (if s[2] is Done {
        1nat
    } else {
        0nat
    })
}

/// The file name of a compilation node.
pub const COMPILATION_NODE_FILE: &'static str = ".osimperf-compiler.node";

/// A commit of a repository to compile, with the status of each target.
///
/// Stored at: archive/ID/.osimperf-compiler.node
pub struct CompilationNode {
    pub repo: Repository,
    pub commit: Commit,
    /// Compilation status.
    pub state: State,
    /// Path to the archive.
    pub archive: String,
    /// Used to detect changes in cmake config.
    pub config_hash: Option<u64>,
}

impl CompilationNode {
    /// The name of the file that stores a node.
    pub fn magic_file() -> (s: &'static str)
        ensures
            s@ == COMPILATION_NODE_FILE@,
    {
        COMPILATION_NODE_FILE
    }

    /// A node for `commit` of `repo` with every target idle, before its file
    /// is read.
    pub fn new(repo: Repository, commit: Commit, archive: &Archive) -> (n: Self)
        ensures
            n.repo == repo,
            n.commit == commit,
            n.archive@ == archive.path_spec(),
            n.config_hash is None,
            n.state.statuses().len() == 3,
            forall|i: int| 0 <= i < 3 ==> #[trigger] n.state.statuses()[i] is Idle,
    {
        Self {
            archive: to_string(archive.path_unchecked()),
            repo,
            commit,
            state: State::new(),
            config_hash: None,
        }
    }

    /// This id is used to create a file name that is discernable from the
    /// others.
    pub fn id<'a>(&'a self) -> (id: Id<'a>)
        ensures
            id.name@ == self.repo.name@,
            id.branch@ == self.repo.branch@,
            id.hash@ == self.commit.hash@,
            id.date@ == self.commit.date@,
            id.path@ == self.archive@,
    {
        Id {
            name: self.repo.name(),
            branch: self.repo.branch(),
            hash: self.commit.hash.as_str(),
            date: self.commit.date.as_str(),
            path: self.archive.as_str(),
        }
    }

    /// The folder of the node inside the archive.
    pub open spec fn folder_spec(&self) -> Seq<char> {
        path_join(
            self.archive@,
            repo::id::subfolder_spec(
                self.repo.name@,
                self.repo.branch@,
                self.commit.date@,
                self.commit.hash@,
            ),
        )
    }

    /// Where `target` of this commit is installed.
    pub fn install_dir(&self, target: CompilationTarget) -> (p: String)
        ensures
            p@ == install_path(target, self.folder_spec()),
    {
        path_to_install(target, &self.id())
    }

    /// The size in megabytes of each installed target, in compilation
    /// order.
    pub fn read_disk_size<F: Fn(&Invocation) -> Result<CommandOutput, RunError>>(
        &self,
        runner: &mut Runner<F>,
    ) -> (res: Result<[usize; 3], Error>)
        requires
            accepts_all(old(runner).fun()),
        ensures
            final(runner).fun() == old(runner).fun(),
            ({
                let du = |t: CompilationTarget|
                    InvocationView::Single(du_command(install_path(t, self.folder_spec())));
                let all = old(runner).log().push(du(CompilationTarget::Dependencies)).push(
                    du(CompilationTarget::OpenSimCore),
                ).push(du(CompilationTarget::TestsSource));
                &&& res is Ok ==> final(runner).log() == all
                &&& final(runner).log().len() >= old(runner).log().len() + 1
                &&& final(runner).log() == all.take(final(runner).log().len() as int)
            }),
            res matches Ok(a) ==> {
                &&& measured(
                    old(runner).fun(),
                    install_path(CompilationTarget::Dependencies, self.folder_spec()),
                    Ok(a[0] as nat),
                )
                &&& measured(
                    old(runner).fun(),
                    install_path(CompilationTarget::OpenSimCore, self.folder_spec()),
                    Ok(a[1] as nat),
                )
                &&& measured(
                    old(runner).fun(),
                    install_path(CompilationTarget::TestsSource, self.folder_spec()),
                    Ok(a[2] as nat),
                )
            },
            res matches Err(e) ==> exists|t: CompilationTarget|
                measured(old(runner).fun(), #[trigger] install_path(t, self.folder_spec()), Err(e)),
    {
        let d0 = folder_size(self.install_dir(CompilationTarget::Dependencies).as_str(), runner);
        let s0 = match d0 {
            Ok(n) => n,
            Err(e) => {
                return Err(e);
            },
        };
        let d1 = folder_size(self.install_dir(CompilationTarget::OpenSimCore).as_str(), runner);
        let s1 = match d1 {
            Ok(n) => n,
            Err(e) => {
                return Err(e);
            },
        };
        let d2 = folder_size(self.install_dir(CompilationTarget::TestsSource).as_str(), runner);
        let s2 = match d2 {
            Ok(n) => n,
            Err(e) => {
                return Err(e);
            },
        };
        Ok([s0, s1, s2])
    }

    /// The file that stores this node.
    pub fn path_to_self(&self) -> (p: String)
        ensures
            p@ == path_join(self.folder_spec(), COMPILATION_NODE_FILE@),
    {
        join(self.id().folder().as_str(), Self::magic_file())
    }

    /// Returns true if everything compiled succesfully.
    pub fn is_done(&self) -> (b: bool)
        ensures
            b == all_done(self.state.statuses()),
    {
        proof {
            self.state.lemma_len();
        }
        let s = self.state.get();
        s[0].is_done() && s[1].is_done() && s[2].is_done()
    }

    /// Whether some target failed to compile.
    fn has_failed(&self) -> (b: bool)
        ensures
            b == any_failed(self.state.statuses()),
    {
        proof {
            self.state.lemma_len();
        }
        let s = self.state.get();
        let b = s[0].has_failed() || s[1].has_failed() || s[2].has_failed();
        proof {
            if b {
                if s@[0] is Error {
                    assert(self.state.statuses()[0] is Error);
                } else if s@[1] is Error {
                    assert(self.state.statuses()[1] is Error);
                } else {
                    assert(self.state.statuses()[2] is Error);
                }
            }
        }
        b
    }

    /// Decides whether to compile, given the hash of the cmake config to
    /// compile with: not when everything is done; a changed config resets
    /// every target; not when a target failed.
    pub fn prepare_run(&mut self, config_hash: u64) -> (go: bool)
        ensures
            all_done(old(self).state.statuses()) ==> !go && *final(self) == *old(self),
            !all_done(old(self).state.statuses()) ==> {
                &&& final(self).config_hash == Some(config_hash)
                &&& final(self).repo == old(self).repo
                &&& final(self).commit == old(self).commit
                &&& final(self).archive == old(self).archive
                &&& final(self).state.statuses().len() == 3
                &&& if old(self).config_hash matches Some(h) && h != config_hash {
                    forall|i: int| 0 <= i < 3 ==> #[trigger] final(self).state.statuses()[i] is Idle
                } else {
                    final(self).state.statuses() == old(self).state.statuses()
                }
                &&& go == !any_failed(final(self).state.statuses())
            },
    {
        proof {
            self.state.lemma_len();
        }
        if self.is_done() {
            return false;
        }
        let changed = match self.config_hash {
            Some(h) => h != config_hash,
            None => false,
        };
        self.config_hash = Some(config_hash);
        if changed {
            self.state.reset();
        }
        !self.has_failed()
    }

    /// The target to compile next: the first one that is not done, unless
    /// it failed; `None` when every target is done or the first one not
    /// done failed.
    pub fn next_target(&self) -> (t: Option<CompilationTarget>)
        ensures
            t matches Some(x) ==> next_index(self.state.statuses()) == Some(x.index_spec()),
            t is None ==> next_index(self.state.statuses()) is None,
    {
        proof {
            self.state.lemma_len();
        }
        let s = self.state.get();
        let mut i: usize = 0;
        while i < 3
            invariant
                i <= 3,
                s@ == self.state.statuses(),
                forall|j: int| 0 <= j < i ==> #[trigger] s@[j] is Done,
            decreases 3 - i,
        {
            if !s[i].is_done() {
                if s[i].has_failed() {
                    return None;
                }
                return Some(CompilationTarget::from(i));
            }
            i = i + 1;
        }
        None
    }

    /// Marks `target` as being compiled, at zero percent.
    pub fn begin_target(&mut self, target: CompilationTarget)
        ensures
            final(self).state.statuses() == old(self).state.statuses().update(
                target.index_spec() as int,
                Status::Compiling(Progress { percentage: 0 }),
            ),
            final(self).repo == old(self).repo,
            final(self).commit == old(self).commit,
            final(self).archive == old(self).archive,
            final(self).config_hash == old(self).config_hash,
    {
        self.state.set(target, Status::Compiling(Progress { percentage: 0 }));
    }

    /// Records how the compilation of `target` ended: its duration in
    /// nanoseconds, or why it failed.
    pub fn finish_target(&mut self, target: CompilationTarget, output: Result<u64, String>)
        ensures
            final(self).state.statuses() == old(self).state.statuses().update(
                target.index_spec() as int,
                Status::from_output_spec(output),
            ),
            final(self).repo == old(self).repo,
            final(self).commit == old(self).commit,
            final(self).archive == old(self).archive,
            final(self).config_hash == old(self).config_hash,
    {
        self.state.set(target, Status::from_output(output));
    }
}

/// The date of the commit of `n`, as chrono reads it.
pub open spec fn node_date(n: CompilationNode) -> Option<Date> {
    match parsed_date(n.commit.date@) {
        Some((y, m, d)) => Some(Date { year: y, month: m, day: d }),
        None => None,
    }
}

/// `v` is ordered by date, newest first.
pub open spec fn newest_first(v: Seq<CompilationNode>) -> bool {
    forall|i: int, j: int|
        0 <= i < j < v.len() ==> !(#[trigger] node_date(v[i]))->0.before(
            (#[trigger] node_date(v[j]))->0,
        )
}

/// `v` holds the nodes of `nodes`, each taken once from its position
/// `pos[j]`, and nodes of the same date keep the order they had in `nodes`.
pub open spec fn stable_by_date(v: Seq<CompilationNode>, nodes: Seq<CompilationNode>, pos: Seq<int>) -> bool {
    &&& pos.len() == v.len()
    &&& forall|j: int| 0 <= j < v.len() ==> 0 <= #[trigger] pos[j] < nodes.len() && v[j] == nodes[pos[j]]
    &&& forall|a: int, b: int| 0 <= a < b < v.len() ==> #[trigger] pos[a] != #[trigger] pos[b]
    &&& forall|a: int, b: int|
        0 <= a < b < v.len() && node_date(#[trigger] v[a]) == node_date(#[trigger] v[b]) ==> pos[a] < pos[b]
}

/// `v` holds the nodes of `nodes`, each taken once from its position
/// `pos[j]`, ordered by the dates `dates` of those positions, newest first,
/// with nodes of the same date in the order they had in `nodes`.
pub open spec fn ordered_by_dates(
    v: Seq<CompilationNode>,
    nodes: Seq<CompilationNode>,
    dates: Seq<Date>,
    pos: Seq<int>,
) -> bool {
    &&& pos.len() == v.len()
    &&& forall|j: int| 0 <= j < v.len() ==> 0 <= #[trigger] pos[j] < nodes.len() && v[j] == nodes[pos[j]]
    &&& forall|a: int, b: int| 0 <= a < b < v.len() ==> #[trigger] pos[a] != #[trigger] pos[b]
    &&& forall|a: int, b: int|
        0 <= a < b < v.len() ==> !dates[#[trigger] pos[a]].before(dates[#[trigger] pos[b]])
    &&& forall|a: int, b: int|
        0 <= a < b < v.len() && dates[#[trigger] pos[a]] == dates[#[trigger] pos[b]] ==> pos[a] < pos[b]
}

/// The nodes `nodes`, where node `i` is dated `dates[i]`, ordered by those
/// dates, newest first, nodes of the same date in the order given.
pub fn order_newest_first(nodes: Vec<CompilationNode>, dates: Vec<Date>) -> (v: Vec<CompilationNode>)
    requires
        nodes.len() == dates.len(),
    ensures
        v@.len() == nodes@.len(),
        v@.to_multiset() == nodes@.to_multiset(),
        exists|pos: Seq<int>| #[trigger] ordered_by_dates(v@, nodes@, dates@, pos),
{
    broadcast use vstd::seq_lib::group_to_multiset_ensures;
    let ghost orig = nodes@;
    let ghost od = dates@;
    let mut rest = nodes;
    let mut rest_dates = dates;
    let mut out: Vec<CompilationNode> = Vec::new();
    let mut keys: Vec<Date> = Vec::new();
    let ghost mut pos: Seq<int> = Seq::empty();
    let ghost mut taken: int = 0;
    assert(orig.skip(0) =~= orig);
    assert(od.skip(0) =~= od);
    while rest.len() > 0
        invariant
            orig.len() == od.len(),
            0 <= taken <= orig.len(),
            rest@ == orig.skip(taken),
            rest_dates@ == od.skip(taken),
            pos.len() == out@.len(),
            out@.len() == taken,
            forall|j: int| 0 <= j < out@.len() ==> 0 <= #[trigger] pos[j] < taken && out@[j] == orig[pos[j]],
            forall|a: int, b: int| 0 <= a < b < out@.len() ==> #[trigger] pos[a] != #[trigger] pos[b],
            keys.len() == out.len(),
            forall|j: int| 0 <= j < out@.len() ==> keys@[j] == od[#[trigger] pos[j]],
            forall|a: int, b: int|
                0 <= a < b < out@.len() && keys@[a] == keys@[b] ==> #[trigger] pos[a] < #[trigger] pos[b],
            out@.to_multiset().add(rest@.to_multiset()) == orig.to_multiset(),
            forall|i: int, j: int| 0 <= i < j < keys@.len() ==> !#[trigger] keys@[i].before(#[trigger] keys@[j]),
        decreases rest.len(),
    {
        let ghost before_rest = rest@;
        let n = rest.remove(0);
        let d = rest_dates.remove(0);
        proof {
            before_rest.to_multiset_ensures();
        }
        assert(before_rest.remove(0).to_multiset() == before_rest.to_multiset().remove(n));
        assert(d == od[taken]);
        let mut p: usize = 0;
        while p < keys.len() && !keys[p].is_before(&d)
            invariant
                p <= keys.len(),
                forall|j: int| 0 <= j < p ==> !(#[trigger] keys@[j]).before(d),
            decreases keys.len() - p,
        {
            p = p + 1;
        }
        proof {
            assert forall|j: int| p <= j < keys@.len() implies (#[trigger] keys@[j]).before(d) by {
                if p < keys@.len() {
                    assert(keys@[p as int].before(d));
                    if p < j {
                        assert(!keys@[p as int].before(keys@[j]));
                    }
                }
            }
        }
        let ghost old_out = out@;
        let ghost old_keys = keys@;
        let ghost old_pos = pos;
        out.insert(p, n);
        keys.insert(p, d);
        proof {
            assert(before_rest[0] == orig[taken]);
            pos = old_pos.insert(p as int, taken);
            assert(rest@ =~= orig.skip(taken + 1));
            assert(rest_dates@ =~= od.skip(taken + 1));
            assert forall|j: int| 0 <= j < out@.len() implies 0 <= #[trigger] pos[j] < taken + 1 && out@[j]
                == orig[pos[j]] by {
                if j < p {
                    assert(out@[j] == old_out[j] && pos[j] == old_pos[j]);
                } else if j > p {
                    assert(out@[j] == old_out[j - 1] && pos[j] == old_pos[j - 1]);
                }
            }
            assert forall|a: int, b: int| 0 <= a < b < out@.len() implies #[trigger] pos[a] != #[trigger] pos[b] by {
                if a != p && b != p {
                    let a0 = if a < p { a } else { a - 1 };
                    let b0 = if b < p { b } else { b - 1 };
                    assert(pos[a] == old_pos[a0] && pos[b] == old_pos[b0]);
                } else if a == p {
                    assert(pos[b] == old_pos[b - 1]);
                } else {
                    assert(pos[a] == old_pos[a]);
                }
            }
            assert forall|j: int| 0 <= j < out@.len() implies keys@[j] == od[#[trigger] pos[j]] by {
                if j < p {
                    assert(keys@[j] == old_keys[j] && pos[j] == old_pos[j]);
                } else if j > p {
                    assert(keys@[j] == old_keys[j - 1] && pos[j] == old_pos[j - 1]);
                }
            }
            assert forall|a: int, b: int|
                0 <= a < b < out@.len() && keys@[a] == keys@[b] implies #[trigger] pos[a] < #[trigger] pos[b] by {
                if a != p && b != p {
                    let a0 = if a < p { a } else { a - 1 };
                    let b0 = if b < p { b } else { b - 1 };
                    assert(pos[a] == old_pos[a0] && pos[b] == old_pos[b0]);
                    assert(keys@[a] == old_keys[a0] && keys@[b] == old_keys[b0]);
                } else if a == p {
                    assert(keys@[b] == old_keys[b - 1]);
                    assert(old_keys[b - 1].before(d));
                } else {
                    assert(pos[a] == old_pos[a]);
                }
            }
            taken = taken + 1;
            assert(out@ == old_out.insert(p as int, n));
            vstd::seq_lib::to_multiset_insert(old_out, p as int, n);
            assert(out@.to_multiset() == old_out.to_multiset().insert(n));
            assert forall|a: int, b: int| 0 <= a < b < keys@.len() implies !#[trigger] keys@[a].before(
                #[trigger] keys@[b],
            ) by {
                if a < p && b < p {
                    assert(keys@[a] == old_keys[a] && keys@[b] == old_keys[b]);
                } else if a < p && b == p {
                    assert(keys@[a] == old_keys[a]);
                } else if a < p && b > p {
                    assert(keys@[a] == old_keys[a] && keys@[b] == old_keys[b - 1]);
                } else if a == p {
                    assert(keys@[b] == old_keys[b - 1]);
                    assert(old_keys[b - 1].before(d));
                } else {
                    assert(keys@[a] == old_keys[a - 1] && keys@[b] == old_keys[b - 1]);
                }
            }
        }
    }
    proof {
        assert(rest@.to_multiset() =~= vstd::multiset::Multiset::empty());
        assert forall|a: int, b: int| 0 <= a < b < out@.len() implies !od[#[trigger] pos[a]].before(
            od[#[trigger] pos[b]],
        ) by {
            assert(keys@[a] == od[pos[a]] && keys@[b] == od[pos[b]]);
        }
        assert forall|a: int, b: int|
            0 <= a < b < out@.len() && od[#[trigger] pos[a]] == od[#[trigger] pos[b]] implies pos[a] < pos[b] by {
            assert(keys@[a] == od[pos[a]] && keys@[b] == od[pos[b]]);
        }
        assert(ordered_by_dates(out@, orig, od, pos));
    }
    out
}

/// The nodes `nodes` ordered by the dates of their commits, newest first,
/// nodes of the same date in the order given; fails when the date of a
/// node cannot be read.
pub fn sort_newest_first(nodes: Vec<CompilationNode>) -> (res: Result<Vec<CompilationNode>, Error>)
    ensures
        res is Err <==> exists|i: int| 0 <= i < nodes@.len() && #[trigger] node_date(nodes@[i]) is None,
        res matches Err(e) ==> e == Error::MalformedDate,
        res matches Ok(v) ==> {
            &&& v@.to_multiset() == nodes@.to_multiset()
            &&& newest_first(v@)
            &&& exists|pos: Seq<int>| #[trigger] stable_by_date(v@, nodes@, pos)
        },
{
    let mut dates: Vec<Date> = Vec::new();
    let mut k: usize = 0;
    while k < nodes.len()
        invariant
            k <= nodes.len(),
            dates.len() == k,
            forall|j: int| 0 <= j < k ==> #[trigger] node_date(nodes@[j]) == Some(dates@[j]),
        decreases nodes.len() - k,
    {
        match nodes[k].commit.date() {
            Ok(d) => {
                dates.push(d);
            },
            Err(e) => {
                assert(node_date(nodes@[k as int]) is None);
                return Err(e);
            },
        }
        k = k + 1;
    }
    let ghost orig = nodes@;
    let ghost ds = dates@;
    let out = order_newest_first(nodes, dates);
    proof {
        let pos = choose|pos: Seq<int>| #[trigger] ordered_by_dates(out@, orig, ds, pos);
        assert forall|j: int| 0 <= j < out@.len() implies #[trigger] node_date(out@[j]) == Some(ds[pos[j]]) by {
            assert(out@[j] == orig[pos[j]]);
        }
        assert forall|i: int, j: int| 0 <= i < j < out@.len() implies !(#[trigger] node_date(out@[i]))->0.before(
            (#[trigger] node_date(out@[j]))->0,
        ) by {
            assert(node_date(out@[i]) == Some(ds[pos[i]]));
            assert(node_date(out@[j]) == Some(ds[pos[j]]));
        }
        assert forall|a: int, b: int|
            0 <= a < b < out@.len() && node_date(#[trigger] out@[a]) == node_date(#[trigger] out@[b]) implies pos[a]
            < pos[b] by {
            assert(node_date(out@[a]) == Some(ds[pos[a]]));
            assert(node_date(out@[b]) == Some(ds[pos[b]]));
        }
        assert(stable_by_date(out@, orig, pos));
    }
    Ok(out)
}

/// The target picked to compile next is one that should be compiled, and
/// every target before it is done: a finished target is never compiled
/// again.
pub proof fn law_next_target_is_first_unfinished(s: Seq<Status>)
    requires
        s.len() == 3,
    ensures
        next_index(s) matches Some(i) ==> {
            &&& i < 3
            &&& s[i as int].should_compile_spec()
            &&& forall|j: int| 0 <= j < i ==> #[trigger] s[j] is Done
        },
        next_index(s) is None ==> all_done(s) || any_failed(s),
{
    if next_index(s) is None && !all_done(s) {
        if !(s[0] is Done) {
            assert(s[0] is Error);
        } else if !(s[1] is Done) {
            assert(s[1] is Error);
        } else {
            assert(s[2] is Error);
        }
    }
}

/// Each compilation step makes progress: finishing the picked target
/// successfully adds one done target, and a failure stops the loop. So a
/// run compiles at most three times.
pub proof fn law_compile_step_progress(s: Seq<Status>, d: u64, m: String)
    requires
        s.len() == 3,
        next_index(s) is Some,
    ensures
        ({
            let i = next_index(s)->0 as int;
            let ok = s.update(i, Status::Done(d));
            let failed = s.update(i, Status::Error(m));
            &&& done_count(ok) == done_count(s) + 1
            &&& next_index(failed) is None
            &&& any_failed(failed)
        }),
{
    let i = next_index(s)->0 as int;
    let failed = s.update(i, Status::Error(m));
    assert(failed[i] is Error);
}

} // verus!
