use osimperf_lib::cmake::{compile_plan, run_cmake_cmd, run_compile_plan, CmakeDirs, OSimCoreCmakeConfig, ProgressStreamer};
use osimperf_lib::command::{CommandOutput, Invocation, RunError, Runner};
use osimperf_lib::compiler_service::{remove_duplicates_from_vec, MonthlyScan};
use osimperf_lib::history::{after_compile, first_of_each, history_action, history_record, mark_failed, month_bounds, HistoryAction};
use osimperf_lib::node::Progress;
use osimperf_lib::node::Status;
use osimperf_lib::repo::RepositoryPath;
use osimperf_lib::status_converter::{convert_repo, convert_state, convert_status, Complete, OldRepository, OldState, OldStatus};
use osimperf_lib::{Archive, BuildFolder, Error, Folder};

fn output(stdout: &str, success: bool, ns: u64) -> CommandOutput {
    CommandOutput { stdout: stdout.to_string(), stderr: String::new(), success, duration_ns: ns }
}

fn text_of(inv: &Invocation) -> String {
    match inv {
        Invocation::Single(c) => c.print_command(),
        Invocation::Piped(p) => p.print_command(),
    }
}

#[test]
fn converting_stored_statuses() {
    let done = convert_status(OldStatus::Done(Complete { size: 3, duration: 9 }));
    assert!(matches!(done, Status::Done(9)));
    assert!(matches!(convert_status(OldStatus::Error("e".to_string())), Status::Error(m) if m == "e"));
    assert!(matches!(convert_status(OldStatus::Compiling(Progress { percentage: 4 })), Status::Compiling(p) if p.percentage == 4));
    let s = convert_state(OldState {
        status_dependencies: OldStatus::Idle,
        status_opensim_core: OldStatus::Done(Complete { size: 1, duration: 2 }),
        status_tests_source: OldStatus::Idle,
    });
    assert!(matches!(s.get()[1], Status::Done(2)));
    let (r, c) = convert_repo(OldRepository {
        name: "n".to_string(),
        path: "p".to_string(),
        url: "u".to_string(),
        branch: "b".to_string(),
        date: "2023_01_01".to_string(),
        hash: "h".to_string(),
    });
    assert_eq!((r.name.as_str(), r.branch.as_str(), c.hash.as_str(), c.date.as_str()), ("n", "b", "h", "2023_01_01"));
}

#[test]
fn stray_nodes_are_removed() {
    let mut v = vec![1, 2, 3, 2, 4];
    remove_duplicates_from_vec(&2, &mut v, &|x: &i32, y: &i32| x == y);
    assert_eq!(v, vec![1, 3, 4]);
    let mut none: Vec<i32> = Vec::new();
    remove_duplicates_from_vec(&2, &mut none, &|x: &i32, y: &i32| x == y);
    assert!(none.is_empty());
}

#[test]
fn monthly_scan_stops_after_too_many_failures() {
    let mut s = MonthlyScan::new(1);
    assert!(s.record(false, "2023_03_01"));
    assert!(s.record(true, "2023_02_01"));
    assert_eq!(s.ok_start_date.as_deref(), Some("2023_02_01"));
    assert!(s.record(false, "2023_01_01"));
    assert!(!s.record(false, "2022_12_01"));
    assert_eq!(s.daily_start(true), Some("2023_02_01".to_string()));
    assert_eq!(s.daily_start(false), None);
    assert_eq!(MonthlyScan::new(0).daily_start(true), None);
}

#[test]
fn cmake_step_definitions() {
    let seen = std::cell::RefCell::new(Vec::new());
    let runner = |inv: &Invocation| -> Result<CommandOutput, RunError> {
        seen.borrow_mut().push(text_of(inv));
        Ok(output("", true, 3))
    };
    let dirs = CmakeDirs {
        source: "/s".to_string(),
        build: "/b".to_string(),
        install: "/i".to_string(),
        dependency: Some("/d".to_string()),
    };
    let t = run_cmake_cmd(&dirs, &["X=1".to_string()], 2, Some("install"), &mut Runner::new(&runner)).unwrap();
    assert_eq!(t, 6);
    assert_eq!(*seen.borrow(), vec![
        "cmake -B /b -S /s -DCMAKE_PREFIX_PATH=/d -DCMAKE_INSTALL_PREFIX=/i -DX=1".to_string(),
        "cmake --build /b --target install -j2".to_string(),
    ]);
    let failing = |_: &Invocation| -> Result<CommandOutput, RunError> { Ok(output("", false, 0)) };
    assert!(matches!(run_cmake_cmd(&dirs, &[], 1, None, &mut Runner::new(&failing)), Err(Error::ConfigureFailed(_))));
}

#[test]
fn progress_lines() {
    let mut p = ProgressStreamer::new();
    let runner = |_: &Invocation| -> Result<CommandOutput, RunError> { Ok(output("42\n", true, 0)) };
    p.push("[ 10%] Building");
    assert!(p.pop_line(&mut Runner::new(&runner)).unwrap().is_empty());
    p.push(" a\n[ 20%] b\npartial");
    assert_eq!(p.pop_line(&mut Runner::new(&runner)).unwrap(), vec!["42".to_string(), "42".to_string()]);
    let failing = |_: &Invocation| -> Result<CommandOutput, RunError> { Err(RunError { message: String::new() }) };
    p.push("\n");
    assert!(p.pop_line(&mut Runner::new(&failing)).is_err());
    assert!(p.pop_line(&mut Runner::new(&runner)).unwrap().len() == 1);
}

#[test]
fn compile_plan_of_a_checked_out_repository() {
    let hash = "0123456789abcdef0123456789abcdef01234567";
    let runner = move |inv: &Invocation| -> Result<CommandOutput, RunError> {
        let t = text_of(inv);
        let reply = if t == "git -C /r remote -v | grep fetch" {
            "opensim-org/opensim-core (fetch)".to_string()
        } else if t == "git -C /r switch main" {
            String::new()
        } else if t == "git -C /r rev-parse HEAD" {
            hash.to_string()
        } else if t.starts_with("git -C /r branch --contains") {
            "  main\n".to_string()
        } else if t.starts_with("git -C /r show") {
            "2023-05-01".to_string()
        } else if t.starts_with("date -d") {
            "2023_05_01".to_string()
        } else {
            return Err(RunError { message: t });
        };
        Ok(output(&reply, true, 0))
    };
    let exists = |_: &str| true;
    let repo = RepositoryPath {
        name: "opensim-core".to_string(),
        path: "/r".to_string(),
        url: "opensim-org/opensim-core".to_string(),
        branch: "main".to_string(),
    }
    .to_repo(&mut Runner::new(&runner), &exists)
    .unwrap();
    let archive = Archive::new_unchecked("/a".to_string());
    let build = BuildFolder::new_unchecked("/b".to_string());
    let plan = compile_plan(&repo, &archive, &build, &OSimCoreCmakeConfig::default(), &mut Runner::new(&runner), &exists).unwrap();
    let install = format!("/a/opensim-core-main-2023_05_01-{hash}");
    assert_eq!(plan.install, install);
    assert_eq!(plan.dependencies.dirs.source, "/r/dependencies");
    assert_eq!(plan.dependencies.dirs.build, "/b/opensim-core-dependencies");
    assert_eq!(plan.dependencies.args, vec![
        "CMAKE_BUILD_TYPE=RelWithDebInfo".to_string(),
        "OPENSIM_WITH_CASADI=OFF".to_string(),
        "OPENSIM_WITH_TROPTER=OFF".to_string(),
    ]);
    assert_eq!(plan.opensim_core.dirs.dependency, Some(format!("{install}/dependencies")));
    assert_eq!(plan.opensim_core.args.last().unwrap(), &format!("OPENSIM_DEPENDENCIES_DIR={install}/dependencies"));
    assert_eq!(plan.tests_source.dirs.install, install);
    assert_eq!(
        plan.tests_source.dirs.dependency,
        Some(format!("{install}/opensim-core:{install}/dependencies"))
    );
    assert_eq!(plan.tests_source.log, format!("{install}/tests-build.log"));

    let fine = |_: &Invocation| -> Result<CommandOutput, RunError> { Ok(output("", true, 2)) };
    let broken = |_: &Invocation| -> Result<CommandOutput, RunError> { Ok(output("", false, 2)) };
    let untouched = std::cell::Cell::new(0);
    let counting = |_: &Invocation| -> Result<CommandOutput, RunError> {
        untouched.set(untouched.get() + 1);
        Ok(output("", true, 2))
    };
    let times = run_compile_plan(
        &plan,
        &repo,
        &mut Runner::new(&runner),
        &exists,
        &mut Runner::new(&fine),
        &mut Runner::new(&fine),
        &mut Runner::new(&counting),
    )
    .unwrap();
    assert_eq!((times.dependencies, times.opensim_core, times.tests_source), (4, 4, 4));
    assert_eq!(untouched.get(), 2);
    untouched.set(0);
    assert!(matches!(
        run_compile_plan(
            &plan,
            &repo,
            &mut Runner::new(&runner),
            &exists,
            &mut Runner::new(&fine),
            &mut Runner::new(&broken),
            &mut Runner::new(&counting),
        ),
        Err(Error::ConfigureFailed(_))
    ));
    assert_eq!(untouched.get(), 0);
    // The repository is gone once the dependencies are built: opensim-core
    // and the benchmark sources are not compiled.
    let missing = |_: &str| false;
    assert!(matches!(
        run_compile_plan(
            &plan,
            &repo,
            &mut Runner::new(&runner),
            &missing,
            &mut Runner::new(&fine),
            &mut Runner::new(&counting),
            &mut Runner::new(&counting),
        ),
        Err(Error::RepositoryMissing)
    ));
    assert_eq!(untouched.get(), 0);
}

#[test]
fn history_decisions() {
    let b = month_bounds(&["2020-01-01", "2020-02-01", "2020-03-01"]);
    assert_eq!(b, vec![
        ("2020-01-01".to_string(), "2020-02-01".to_string()),
        ("2020-02-01".to_string(), "2020-03-01".to_string()),
    ]);
    assert!(month_bounds(&[]).is_empty());
    assert!(month_bounds(&["2020-01-01"]).is_empty());
    let lists = vec![vec!["a".to_string(), "b".to_string()], vec![], vec!["c".to_string()]];
    assert_eq!(first_of_each(&lists), vec!["a".to_string(), "c".to_string()]);
    assert!(matches!(history_action(true), HistoryAction::Skip));
    assert!(matches!(history_action(false), HistoryAction::Compile));
    assert_eq!(mark_failed("/a/x").print_command(), "mv /a/x /a/x-failed");
    assert_eq!(history_record("/a/x", true), "/a/x,success");
    assert_eq!(history_record("/a/x", false), "/a/x,failed");
    assert!(after_compile("/a/x", true).is_none());
    assert_eq!(after_compile("/a/x", false).unwrap().print_command(), "mv /a/x /a/x-failed");
}

#[test]
fn removing_duplicates_keeps_order() {
    let mut v = vec![5, 2, 9, 2, 1, 7];
    remove_duplicates_from_vec(&2, &mut v, &|x: &i32, y: &i32| x == y);
    assert_eq!(v, vec![5, 9, 1, 7]);
}
