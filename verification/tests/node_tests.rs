use osimperf_lib::command::{CommandOutput, Invocation, RunError, Runner};
use osimperf_lib::common::git::{Commit, Date};
use osimperf_lib::node::cmake::config::dated_config_date;
use osimperf_lib::node::repo::repo::{BioLabRepositoryConfig, Repository, RepositoryConfig, RepositoryState};
use osimperf_lib::node::repo::Source;
use osimperf_lib::node::{
    folder_size, path_to_build, path_to_install, path_to_source, order_newest_first, sort_newest_first, CMakeCmds,
    CMakeConfig, CMakeConfigReader, CompilationNode, CompilationTarget, State, Status,
};
use osimperf_lib::{Archive, BuildFolder, Error, Folder, Home};

fn output(stdout: &str, success: bool, ns: u64) -> CommandOutput {
    CommandOutput { stdout: stdout.to_string(), stderr: String::new(), success, duration_ns: ns }
}

fn text_of(inv: &Invocation) -> String {
    match inv {
        Invocation::Single(c) => c.print_command(),
        Invocation::Piped(p) => p.print_command(),
    }
}

fn repo() -> Repository {
    Repository {
        name: "opensim-core".to_string(),
        path: "/src/opensim-core".to_string(),
        url: "url".to_string(),
        branch: "main".to_string(),
    }
}

fn node(date: &str) -> CompilationNode {
    CompilationNode::new(
        repo(),
        Commit { hash: "abc".to_string(), date: date.to_string() },
        &Archive::new_unchecked("/archive".to_string()),
    )
}

fn statuses(n: &CompilationNode) -> Vec<String> {
    n.state
        .get()
        .iter()
        .map(|s| match s {
            Status::Idle => "idle".to_string(),
            Status::Compiling(p) => format!("compiling {}", p.percentage),
            Status::Error(m) => format!("error {}", m),
            Status::Done(d) => format!("done {}", d),
        })
        .collect()
}

#[test]
fn targets_in_order() {
    let all = CompilationTarget::list_all();
    assert_eq!(all, [
        CompilationTarget::Dependencies,
        CompilationTarget::OpenSimCore,
        CompilationTarget::TestsSource,
    ]);
    for (i, t) in all.iter().enumerate() {
        assert_eq!(t.index(), i);
        assert_eq!(CompilationTarget::from(i), *t);
    }
    assert_eq!(CompilationTarget::OpenSimCore.to_str(), "opensim-core");
    assert_eq!(CompilationTarget::TestsSource.short_desc(), "src");
}

#[test]
fn node_paths() {
    let n = node("2023_05_01");
    let id = n.id();
    assert_eq!(id.subfolder_name(), "opensim-core-main-2023_05_01-abc");
    assert_eq!(n.path_to_self(), "/archive/opensim-core-main-2023_05_01-abc/.osimperf-compiler.node");
    assert_eq!(
        path_to_install(CompilationTarget::OpenSimCore, &id),
        "/archive/opensim-core-main-2023_05_01-abc/opensim-core"
    );
    let home = Home::new_unchecked("/home/o".to_string());
    let state = RepositoryState::at("/src/opensim-core".to_string());
    assert_eq!(
        path_to_source(CompilationTarget::Dependencies, &home, &state).unwrap(),
        "/src/opensim-core/dependencies"
    );
    assert_eq!(path_to_source(CompilationTarget::TestsSource, &home, &state).unwrap(), "/home/o/source");
    assert_eq!(path_to_source(CompilationTarget::OpenSimCore, &home, &state).unwrap(), "/src/opensim-core");
    let build = BuildFolder::new_unchecked("/b".to_string());
    assert_eq!(path_to_build(CompilationTarget::TestsSource, &build).unwrap(), "/b/tests");
}

#[test]
fn compile_loop_makes_progress() {
    let mut n = node("2023_05_01");
    assert!(!n.is_done());
    assert!(n.prepare_run(7));
    assert_eq!(n.config_hash, Some(7));
    assert_eq!(n.next_target(), Some(CompilationTarget::Dependencies));
    n.begin_target(CompilationTarget::Dependencies);
    assert_eq!(statuses(&n)[0], "compiling 0");
    n.finish_target(CompilationTarget::Dependencies, Ok(10));
    assert_eq!(n.next_target(), Some(CompilationTarget::OpenSimCore));
    n.finish_target(CompilationTarget::OpenSimCore, Ok(20));
    n.finish_target(CompilationTarget::TestsSource, Ok(30));
    assert_eq!(n.next_target(), None);
    assert!(n.is_done());
    assert!(!n.prepare_run(8));
    assert_eq!(n.config_hash, Some(7));
}

#[test]
fn a_failure_stops_until_the_config_changes() {
    let mut n = node("2023_05_01");
    assert!(n.prepare_run(1));
    n.finish_target(CompilationTarget::Dependencies, Ok(1));
    n.finish_target(CompilationTarget::OpenSimCore, Err("boom".to_string()));
    assert_eq!(n.next_target(), None);
    assert!(!n.prepare_run(1));
    assert_eq!(statuses(&n), vec!["done 1", "error boom", "idle"]);
    assert!(n.prepare_run(2));
    assert_eq!(statuses(&n), vec!["idle", "idle", "idle"]);
    assert_eq!(n.next_target(), Some(CompilationTarget::Dependencies));
}

#[test]
fn state_set_and_reset() {
    let mut s = State::default();
    s.set(CompilationTarget::TestsSource, Status::Done(3));
    assert!(s.status(CompilationTarget::TestsSource).is_done());
    assert!(s.status(CompilationTarget::OpenSimCore).should_compile());
    s.reset();
    assert!(s.get().iter().all(|x| matches!(x, Status::Idle)));
    assert!(Status::from_output(Err("x".to_string())).has_failed());
}

#[test]
fn nodes_sorted_newest_first() {
    let v = vec![node("2021_01_01"), node("2023_01_01"), node("2022_06_30"), node("2023_01_01")];
    let sorted = sort_newest_first(v).unwrap();
    let dates: Vec<String> = sorted.iter().map(|n| n.commit.date.clone()).collect();
    assert_eq!(dates, vec!["2023_01_01", "2023_01_01", "2022_06_30", "2021_01_01"]);
    assert!(matches!(sort_newest_first(vec![node("2021_01_01"), node("bad")]), Err(Error::MalformedDate)));
}

#[test]
fn disk_size_from_du() {
    let runner = |inv: &Invocation| -> Result<CommandOutput, RunError> {
        match text_of(inv).as_str() {
            "du -sm /x" => Ok(output("120\t/x\n", true, 0)),
            "du -sm /y" => Ok(output("oops\t/y\n", true, 0)),
            other => Err(RunError { message: other.to_string() }),
        }
    };
    assert_eq!(folder_size("/x", &mut Runner::new(&runner)).unwrap(), 120);
    assert!(matches!(folder_size("/y", &mut Runner::new(&runner)), Err(Error::NotANumber)));
    assert!(matches!(folder_size("/z", &mut Runner::new(&runner)), Err(Error::Run(_))));
}

#[test]
fn cmake_args_per_target() {
    let c = CMakeConfig::default();
    let deps = c.cmake_args(CompilationTarget::Dependencies);
    assert_eq!(deps, vec![
        "-DCMAKE_BUILD_TYPE=RelWithDebInfo".to_string(),
        "-DOPENSIM_WITH_CASADI=OFF".to_string(),
        "-DOPENSIM_WITH_TROPTER=OFF".to_string(),
    ]);
    assert_eq!(c.cmake_args(CompilationTarget::OpenSimCore).len(), 11);
    assert_eq!(c.cmake_args(CompilationTarget::TestsSource), vec![
        "-DCMAKE_BUILD_TYPE=RelWithDebInfo".to_string()
    ]);
    assert_eq!(c.num_jobs(), 3);
}

fn config(tag: &str) -> CMakeConfig {
    CMakeConfig::new(vec![tag.to_string()], vec![], vec![], vec![], vec![], 1)
}

#[test]
fn dated_configs_apply_before_their_date() {
    let mut r = CMakeConfigReader::new(config("default"));
    r.add_dated(Date { year: 2022, month: 1, day: 1 }, config("before-2022"));
    r.add_dated(Date { year: 2020, month: 1, day: 1 }, config("before-2020"));
    let tag = |d: Date| r.get(&d).common()[0].clone();
    assert_eq!(tag(Date { year: 2019, month: 5, day: 1 }), "before-2020");
    assert_eq!(tag(Date { year: 2021, month: 5, day: 1 }), "before-2022");
    assert_eq!(tag(Date { year: 2022, month: 1, day: 1 }), "default");
}

#[test]
fn dated_config_file_names() {
    assert_eq!(
        dated_config_date("/h/compile-flags/osimperf-cmake-before-2021_03_04.conf").unwrap(),
        Some(Date { year: 2021, month: 3, day: 4 })
    );
    assert_eq!(dated_config_date("/h/compile-flags/osimperf-cmake.conf").unwrap(), None);
    assert!(matches!(
        dated_config_date("/h/osimperf-cmake-before-2021"),
        Err(Error::MalformedDate)
    ));
    assert!(matches!(
        dated_config_date("/h/osimperf-cmake-before-2021_13_04.conf"),
        Err(Error::MalformedDate)
    ));
    assert_eq!(
        CMakeConfigReader::default_path(&Home::new_unchecked("/h".to_string())),
        "/h/compile-flags/osimperf-cmake.conf"
    );
}

#[test]
fn cmake_commands_of_opensim_core() {
    let n = node("2023_05_01");
    let id = n.id();
    let home = Home::new_unchecked("/home/o".to_string());
    let state = RepositoryState::at("/src/opensim-core".to_string());
    let build = BuildFolder::new_unchecked("/b".to_string());
    let cfg = CMakeConfig::new(vec!["-DA=1".to_string()], vec!["-DO=1".to_string()], vec![], vec![], vec![], 4);
    let cmds = CMakeCmds::new(&id, &state, &home, &build, &cfg, CompilationTarget::OpenSimCore).unwrap();
    let install = "/archive/opensim-core-main-2023_05_01-abc";
    let expected = format!(
        "configure command: cmake \\\n    -B \\\n    /b/opensim-core \\\n    -S \\\n    /src/opensim-core \\\n    -DCMAKE_PREFIX_PATH={install}/dependencies \\\n    -DCMAKE_INSTALL_PREFIX={install}/opensim-core \\\n    -DA=1 \\\n    -DO=1 \\\n    -DOPENSIM_DEPENDENCIES_DIR={install}/dependencies\nbuild command: cmake \\\n    --build \\\n    /b/opensim-core \\\n    --target \\\n    install \\\n    -j4"
    );
    assert_eq!(cmds.print_pretty(), expected);

    let ok = |_: &Invocation| -> Result<CommandOutput, RunError> { Ok(output("", true, 5)) };
    assert_eq!(cmds.run(&mut Runner::new(&ok)).unwrap(), 10);
    let bad_build = |inv: &Invocation| -> Result<CommandOutput, RunError> {
        Ok(output("", !text_of(inv).contains("--build"), 5))
    };
    assert!(matches!(cmds.run(&mut Runner::new(&bad_build)), Err(Error::BuildFailed(_))));
    let bad_config = |_: &Invocation| -> Result<CommandOutput, RunError> { Ok(output("", false, 5)) };
    assert!(matches!(cmds.run(&mut Runner::new(&bad_config)), Err(Error::ConfigureFailed(_))));
    let huge = |_: &Invocation| -> Result<CommandOutput, RunError> { Ok(output("", true, u64::MAX)) };
    assert_eq!(cmds.run(&mut Runner::new(&huge)).unwrap(), u64::MAX);
}

#[test]
fn cmake_build_is_not_run_after_failed_configure() {
    let n = node("2023_05_01");
    let id = n.id();
    let home = Home::new_unchecked("/home/o".to_string());
    let state = RepositoryState::at("/src/opensim-core".to_string());
    let build = BuildFolder::new_unchecked("/b".to_string());
    let cfg = CMakeConfig::new(vec![], vec![], vec![], vec![], vec![], 1);
    let cmds = CMakeCmds::new(&id, &state, &home, &build, &cfg, CompilationTarget::Dependencies).unwrap();
    let seen = std::cell::RefCell::new(Vec::new());
    let failing_configure = |inv: &Invocation| -> Result<CommandOutput, RunError> {
        seen.borrow_mut().push(text_of(inv));
        Ok(output("", false, 5))
    };
    assert!(matches!(cmds.run(&mut Runner::new(&failing_configure)), Err(Error::ConfigureFailed(_))));
    assert_eq!(seen.borrow().len(), 1);
    assert!(!seen.borrow()[0].contains("--build"));
    seen.borrow_mut().clear();
    let fine = |inv: &Invocation| -> Result<CommandOutput, RunError> {
        seen.borrow_mut().push(text_of(inv));
        Ok(output("", true, 5))
    };
    assert_eq!(cmds.run(&mut Runner::new(&fine)).unwrap(), 10);
    assert_eq!(seen.borrow().len(), 2);
    assert!(!seen.borrow()[0].contains("--build"));
    assert!(seen.borrow()[1].contains("--build"));
}

#[test]
fn read_disk_size_of_each_target() {
    let n = node("2023_05_01");
    let runner = |inv: &Invocation| -> Result<CommandOutput, RunError> {
        let t = text_of(inv);
        let size = if t.ends_with("/dependencies") { "1" } else if t.ends_with("/opensim-core") { "2" } else { "3" };
        Ok(output(&format!("{size}\tdir"), true, 0))
    };
    assert_eq!(n.read_disk_size(&mut Runner::new(&runner)).unwrap(), [1, 2, 3]);
}

#[test]
fn configured_url_is_used_and_checked() {
    let home = Home::new_unchecked("/h".to_string());
    let runner = |inv: &Invocation| -> Result<CommandOutput, RunError> {
        if text_of(inv) == "git -C /h/software/opensim-core remote -v | grep fetch" {
            Ok(output("origin git@example.org:fork/opensim-core.git (fetch)", true, 0))
        } else {
            Err(RunError { message: text_of(inv) })
        }
    };
    let exists = |_: &str| true;
    let given = RepositoryConfig {
        name: "fork".to_string(),
        branch: "main".to_string(),
        path: None,
        url: Some("example.org:fork".to_string()),
    };
    let r = given.take(&home, &mut Runner::new(&runner), &exists).unwrap();
    assert_eq!(r.url, "example.org:fork");
    assert_eq!(r.path, "/h/software/opensim-core");
    let default = RepositoryConfig { name: "o".to_string(), branch: "main".to_string(), path: None, url: None };
    assert!(matches!(default.take(&home, &mut Runner::new(&runner), &exists), Err(Error::UrlMismatch)));
    let lab = BioLabRepositoryConfig {
        repositories: vec![RepositoryConfig {
            name: "lab".to_string(),
            branch: "main".to_string(),
            path: Some("/h/software/opensim-core".to_string()),
            url: Some("fork/opensim-core".to_string()),
        }],
    };
    let v = lab.take(&home, &mut Runner::new(&runner), &exists).unwrap();
    assert_eq!(v.len(), 1);
    assert_eq!(v[0].url, "fork/opensim-core");
}

#[test]
fn source_checkout_skips_when_checked_out() {
    let seen = std::cell::RefCell::new(Vec::new());
    let runner = |inv: &Invocation| -> Result<CommandOutput, RunError> {
        let t = text_of(inv);
        seen.borrow_mut().push(t.clone());
        if t.contains("branch --contains") {
            Ok(output("* main\n", true, 0))
        } else if t.contains("rev-parse HEAD") {
            Ok(output("abc\n", true, 0))
        } else {
            Ok(output("", true, 0))
        }
    };
    let src = Source { repo: "/r", branch: "main", hash: "abc", url: "u" };
    assert!(src.checkout(&mut Runner::new(&runner)).is_ok());
    assert_eq!(seen.borrow().len(), 2);
    seen.borrow_mut().clear();
    let other = Source { repo: "/r", branch: "main", hash: "def", url: "u" };
    assert!(matches!(other.checkout(&mut Runner::new(&runner)), Err(Error::CheckoutFailed)));
    assert_eq!(seen.borrow().len(), 4);
    assert!(seen.borrow()[2].contains("checkout def"));
}

#[test]
fn sorting_keeps_nodes_of_one_date_in_order() {
    let a = node("2023_05_01");
    let mut b = node("2023_05_01");
    b.commit.hash = "second".to_string();
    let c = node("2023_06_01");
    let sorted = sort_newest_first(vec![a, b, c]).unwrap();
    assert_eq!(sorted[0].commit.date, "2023_06_01");
    assert_eq!(sorted[1].commit.hash, "abc");
    assert_eq!(sorted[2].commit.hash, "second");
}

#[test]
fn ordered_by_given_dates() {
    let d = |year: i32, month: u32, day: u32| Date { year, month, day };
    let nodes = vec![node("a"), node("b"), node("c"), node("d")];
    let dates = vec![d(2021, 3, 1), d(2022, 1, 31), d(2021, 3, 1), d(2021, 12, 1)];
    let order: Vec<String> = order_newest_first(nodes, dates).iter().map(|n| n.commit.date.clone()).collect();
    assert_eq!(order, vec!["b", "d", "a", "c"]);
    assert!(order_newest_first(Vec::new(), Vec::new()).is_empty());
}
