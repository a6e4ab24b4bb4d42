use osimperf_lib::command::{Command, CommandOutput, Invocation, PipedCommands, RunError, Runner};
use osimperf_lib::Error;

fn output(stdout: &str, success: bool, ns: u64) -> CommandOutput {
    CommandOutput { stdout: stdout.to_string(), stderr: String::new(), success, duration_ns: ns }
}

fn text_of(inv: &Invocation) -> String {
    match inv {
        Invocation::Single(c) => c.print_command(),
        Invocation::Piped(p) => p.print_command(),
    }
}

#[test]
fn parse_splits_on_spaces() {
    let c = Command::parse("git  -C repo log");
    assert_eq!(c.cmd(), "git");
    assert_eq!(c.args(), &vec!["-C".to_string(), "repo".to_string(), "log".to_string()]);
    assert_eq!(c.print_command(), "git -C repo log");
}

#[test]
fn print_parse_roundtrip() {
    let mut c = Command::new("cmake");
    c.add_arg("-B");
    c.add_arg("build");
    let printed = c.print_command();
    let back = Command::parse(&printed);
    assert_eq!(back.cmd(), c.cmd());
    assert_eq!(back.args(), c.args());
}

#[test]
fn environment_is_substituted_when_printed() {
    let mut c = Command::new("echo");
    c.add_arg("$HOME/x");
    c.add_env("HOME", "/root");
    assert_eq!(c.print_command(), "echo /root/x");
    c.set_run_root("/tmp");
    assert_eq!(c.root(), &Some("/tmp".to_string()));
    assert_eq!(c.print_command_with_delim(" \\\n"), "echo \\\n/root/x");
}

#[test]
fn pipeline_parse_and_print() {
    let p = PipedCommands::parse("echo a|grep a");
    assert_eq!(p.cmds().len(), 2);
    assert_eq!(p.print_command(), "echo a | grep a");
    let empty = PipedCommands::new(Vec::new());
    assert_eq!(empty.print_command_with_delim(" "), "empty command");
}

#[test]
fn run_gives_stdout_or_the_failure() {
    let ok = |inv: &Invocation| -> Result<CommandOutput, RunError> {
        assert_eq!(text_of(inv), "echo hi");
        Ok(output(" hi \n", true, 5))
    };
    let c = Command::parse("echo hi");
    assert_eq!(c.run(&mut Runner::new(&ok)).unwrap(), " hi \n");
    assert_eq!(c.run_trim(&mut Runner::new(&ok)).unwrap(), "hi");
    assert_eq!(c.run_and_time(&mut Runner::new(&ok)).unwrap().duration_ns, 5);

    let failing = |_: &Invocation| -> Result<CommandOutput, RunError> { Ok(output("out", false, 1)) };
    assert!(matches!(c.run(&mut Runner::new(&failing)), Err(Error::ExitFailure(o)) if o.stdout == "out"));
    assert!(c.run_and_stream(&mut Runner::new(&failing)).is_ok());

    let broken = |_: &Invocation| -> Result<CommandOutput, RunError> {
        Err(RunError { message: "no such program".to_string() })
    };
    assert!(matches!(c.run(&mut Runner::new(&broken)), Err(Error::Run(e)) if e.message == "no such program"));
}

#[test]
fn a_pipeline_needs_two_commands() {
    let runner = |_: &Invocation| -> Result<CommandOutput, RunError> { Ok(output("x", true, 0)) };
    let one = PipedCommands::parse("echo a");
    assert!(matches!(one.run(&mut Runner::new(&runner)), Err(Error::PipelineTooShort)));
    let two = PipedCommands::parse("echo a|cat");
    assert_eq!(two.run_trim(&mut Runner::new(&runner)).unwrap(), "x");
}

#[test]
fn stderr_clone_reports_stdout() {
    let o = CommandOutput {
        stdout: "a".to_string(),
        stderr: "b".to_string(),
        success: true,
        duration_ns: 0,
    };
    assert_eq!(o.stdout_str_clone(), "a");
    assert_eq!(o.stderr_str_clone(), "a");
    assert!(o.success());
}

#[test]
fn empty_pipeline_prints_empty_command() {
    assert_eq!(PipedCommands::parse("").print_command(), "empty command");
    assert_eq!(PipedCommands::parse("||").print_command(), "empty command");
}
