use osimperf_lib::bench_tests::config::{BenchTestSetup, ReadBenchTestSetup};
use osimperf_lib::bench_tests::context::{find_modeling_file, flattened_path, is_copied_to_context};
use osimperf_lib::bench_tests::result::{BenchTestResult, Durations};
use osimperf_lib::bench_tests::run_cmds::{run_pre_test_cmds, run_test_bench_cmd, FileEnvVars};
use osimperf_lib::bench_tests::table::print_results;
use osimperf_lib::bench_tests::TestNode;
use osimperf_lib::command::{Command, CommandOutput, Invocation, RunError, Runner};
use osimperf_lib::common::git::Commit;
use osimperf_lib::node::repo::repo::Repository;
use osimperf_lib::node::{CompilationNode, CompilationTarget, Id};
use osimperf_lib::{Archive, Error, Folder, Home, ResultsFolder};

fn output(stdout: &str, success: bool, ns: u64) -> CommandOutput {
    CommandOutput { stdout: stdout.to_string(), stderr: String::new(), success, duration_ns: ns }
}

fn fresh() -> BenchTestResult {
    BenchTestResult {
        hash: None,
        failed_count: 0,
        durations: Durations::new(),
        path_to_self: "/r/x/.osimperf-result.node".to_string(),
    }
}

fn env() -> FileEnvVars {
    FileEnvVars {
        install: "/i".to_string(),
        output: "/o".to_string(),
        root: "/o/context".to_string(),
        home: "/h".to_string(),
    }
}

fn node(done: bool) -> CompilationNode {
    let mut n = CompilationNode::new(
        Repository {
            name: "osim".to_string(),
            path: "/src".to_string(),
            url: "u".to_string(),
            branch: "main".to_string(),
        },
        Commit { hash: "h".to_string(), date: "2023_01_01".to_string() },
        &Archive::new_unchecked("/a".to_string()),
    );
    if done {
        for t in CompilationTarget::list_all() {
            n.finish_target(t, Ok(1));
        }
    }
    n
}

fn setup(name: &str) -> BenchTestSetup {
    BenchTestSetup::new(
        ReadBenchTestSetup {
            name: name.to_string(),
            pre_benchmark_cmds: None,
            benchmark_cmd: Command::parse("run-bench"),
            post_benchmark_cmds: Some(vec![Command::parse("cleanup")]),
            files: None,
        },
        "/tests/a/osimperf-test.conf".to_string(),
    )
}

#[test]
fn result_path_and_updates() {
    let results = ResultsFolder::new_unchecked("/res".to_string());
    let id = Id { name: "osim", branch: "main", hash: "h", date: "2023_01_01", path: "/a" };
    assert_eq!(
        BenchTestResult::path_to_node(&results, &id, "walk"),
        "/res/osim-main-2023_01_01-h/walk/.osimperf-result.node"
    );
    let mut r = fresh();
    r.update_hash(5);
    r.update_result(Some(100));
    r.update_result(Some(110));
    assert_eq!(r.durations.get(), &vec![100, 110]);
    r.update_hash(5);
    assert_eq!(r.durations.len(), 2);
    r.update_result(None);
    assert_eq!(r.failed_count, 1);
    assert_eq!(r.durations.len(), 0);
    r.update_hash(6);
    assert_eq!(r.failed_count, 0);
    assert_eq!(r.hash, Some(6));
}

#[test]
fn should_run_until_enough_samples_or_failures() {
    let mut r = fresh();
    assert!(r.should_run(2, 1));
    r.update_result(Some(1));
    r.update_result(Some(1));
    assert!(!r.should_run(2, 1));
    r.update_result(None);
    assert!(!r.should_run(5, 1));
    r.update_result(Some(3));
    assert!(!r.should_run(5, 1));
}

#[test]
fn environment_of_benchmark_commands() {
    let c = env().with_env(Command::parse("bench $OSIMPERF_OUTPUT"));
    assert_eq!(c.root(), &Some("/o/context".to_string()));
    assert_eq!(c.print_command(), "bench /o");
    let envs = c.envs();
    assert_eq!(envs.len(), 6);
    assert_eq!(envs[4], ("PATH".to_string(), "/bin:/i/opensim-core:/i/opensim-core/lib:/i/opensim-core/include".to_string()));
    assert_eq!(envs[5].0, "LD_LIBRARY_PATH");
}

#[test]
fn pre_test_commands_stop_at_the_first_failure() {
    let ran = std::cell::RefCell::new(Vec::new());
    let runner = |inv: &Invocation| -> Result<CommandOutput, RunError> {
        let t = match inv {
            Invocation::Single(c) => c.print_command(),
            Invocation::Piped(p) => p.print_command(),
        };
        ran.borrow_mut().push(t.clone());
        Ok(output("", t != "b", 0))
    };
    let cmds = vec![Command::parse("a"), Command::parse("b"), Command::parse("c")];
    assert!(matches!(run_pre_test_cmds(&cmds, &env(), &mut Runner::new(&runner)), Err(Error::ExitFailure(_))));
    assert_eq!(*ran.borrow(), vec!["a", "b"]);
    assert!(run_pre_test_cmds(&[], &env(), &mut Runner::new(&runner)).is_ok());
    let out = run_test_bench_cmd(&Command::parse("bench"), &env(), &mut Runner::new(&runner)).unwrap();
    assert!(out.success);
}

#[test]
fn setup_from_file() {
    let s = setup("walk");
    assert_eq!(s.name, "walk");
    assert!(s.pre_benchmark_cmds.is_empty());
    assert_eq!(s.post_benchmark_cmds.len(), 1);
    assert_eq!(s.test_setup_file, "/tests/a/osimperf-test.conf");
    let find = |_: &str, _: &str| vec!["/t/a/osimperf-test.conf".to_string(), "/t/b/osimperf-test.conf".to_string()];
    let read = |p: &str| -> Result<ReadBenchTestSetup, Error> {
        if p.contains("/b/") {
            return Err(Error::FileNotFound);
        }
        Ok(ReadBenchTestSetup {
            name: "a".to_string(),
            pre_benchmark_cmds: None,
            benchmark_cmd: Command::parse("x"),
            post_benchmark_cmds: None,
            files: Some(vec!["model.osim".to_string()]),
        })
    };
    assert!(matches!(BenchTestSetup::find_all("/t", &find, &read), Err(Error::FileNotFound)));
    let find_one = |_: &str, _: &str| vec!["/t/a/osimperf-test.conf".to_string()];
    let all = BenchTestSetup::find_all("/t", &find_one, &read).unwrap();
    assert_eq!(all.len(), 1);
    assert_eq!(all[0].model_files, vec!["model.osim".to_string()]);
}

#[test]
fn context_files() {
    assert_eq!(flattened_path("/models/x/arm.osim", "/ctx"), "/ctx/arm.osim");
    assert!(is_copied_to_context("/t/a/arm.osim"));
    assert!(!is_copied_to_context("/t/a/osimperf-test.conf"));
    let none = |_: &str, _: &str| Vec::new();
    let one = |_: &str, _: &str| vec!["/m/arm.osim".to_string()];
    let two = |_: &str, _: &str| vec!["/m/a/arm.osim".to_string(), "/m/b/arm.osim".to_string()];
    assert!(matches!(find_modeling_file("arm.osim", "/m", &none), Err(Error::FileNotFound)));
    assert_eq!(find_modeling_file("arm.osim", "/m", &one).unwrap(), "/m/arm.osim");
    assert!(matches!(find_modeling_file("arm.osim", "/m", &two), Err(Error::AmbiguousFile(2))));
}

#[test]
fn results_table() {
    let nodes = vec![node(true), node(false)];
    let tests = vec![setup("walk"), setup("run")];
    let cells = vec![vec![Some("1.50".to_string()), None], vec![None, None]];
    let table = print_results(&nodes, &tests, &cells);
    assert_eq!(
        table,
        "| Date | Status | walk | run |\n| --- | --- | --- | --- |\n|  osim-2023_01_01 | Ok | 1.50 | Failed |\n|  osim-2023_01_01 | Failed | Failed | Failed |"
    );
}

#[test]
fn test_node_records_runs_after_warm_up() {
    let compiler = node(true);
    let test = setup("walk");
    let home = Home::new_unchecked("/h".to_string());
    let results = ResultsFolder::new_unchecked("/res".to_string());
    let mut t = TestNode::new(&test, &compiler, &home, &results, 2, fresh());
    assert!(t.should_run(3, 1));
    let e = t.env_vars().unwrap();
    assert_eq!(e.install, "/a/osim-main-2023_01_01-h");
    assert_eq!(e.output, "/res/osim-main-2023_01_01-h/walk");
    assert_eq!(e.root, "/res/osim-main-2023_01_01-h/walk/context");
    assert_eq!(e.home, "/h");
    t.record_run(output("", true, 7));
    assert_eq!(t.result().durations.len(), 0);
    t.record_run(output("", true, 8));
    assert_eq!(t.result().durations.get(), &vec![8]);
    let runner = |_: &Invocation| -> Result<CommandOutput, RunError> { Ok(output("", false, 9)) };
    let r = t.run(&mut Runner::new(&runner)).unwrap();
    assert_eq!(r.failed_count, 1);
    assert!(!t.should_run(3, 1));
    t.record_setup(Ok(()), 42);
    assert_eq!(t.result().failed_count, 0);
    t.record_teardown(Err(Error::FileNotFound));
    assert_eq!(t.result().failed_count, 1);
    let not_compiled = node(false);
    let t2 = TestNode::new(&test, &not_compiled, &home, &results, 0, fresh());
    assert!(!t2.should_run(3, 1));
}
