use osimperf_lib::command::{CommandOutput, Invocation, RunError, Runner};
use osimperf_lib::repo::commit::Commit;
use osimperf_lib::repo::{git, short_hash, RepositoryPath};
use osimperf_lib::{Archive, Error, Folder, ResultsFolder};

fn output(stdout: &str, success: bool) -> CommandOutput {
    CommandOutput { stdout: stdout.to_string(), stderr: String::new(), success, duration_ns: 0 }
}

fn text_of(inv: &Invocation) -> String {
    match inv {
        Invocation::Single(c) => c.print_command(),
        Invocation::Piped(p) => p.print_command(),
    }
}

const HASH: &str = "0123456789abcdef0123456789abcdef01234567";

fn git_runner(inv: &Invocation) -> Result<CommandOutput, RunError> {
    let t = text_of(inv);
    let reply = if t == "git -C /r remote -v | grep fetch" {
        "origin https://github.com/opensim-org/opensim-core.git (fetch)"
    } else if t == "git -C /r switch main" {
        ""
    } else if t == "git -C /r rev-parse HEAD" {
        HASH
    } else if t.starts_with("git -C /r branch --contains") {
        "  main\n  other\n"
    } else if t.starts_with("git -C /r show -s --format=%cs") {
        "2023-05-01"
    } else if t == "date -d 2023-05-01 +%Y_%m_%d" {
        "2023_05_01"
    } else if t.ends_with("bin/opensim-cmd --version") {
        "OpenSim version 4.4, build date 2023, 012345678"
    } else {
        return Err(RunError { message: t });
    };
    Ok(output(reply, true))
}

fn repo_path() -> RepositoryPath {
    RepositoryPath {
        name: "opensim-core".to_string(),
        path: "/r".to_string(),
        url: "opensim-org/opensim-core".to_string(),
        branch: "main".to_string(),
    }
}

#[test]
fn hashes_and_short_hashes() {
    assert!(osimperf_lib::repo::hash::Hash::new(HASH).is_ok());
    assert_eq!(osimperf_lib::repo::hash::Hash::new(HASH).unwrap().str(), HASH);
    assert!(matches!(osimperf_lib::repo::hash::Hash::new("abc"), Err(Error::InvalidHash)));
    assert_eq!(short_hash(HASH).unwrap(), "012345678");
    assert!(matches!(short_hash("0123"), Err(Error::InvalidHash)));
}

#[test]
fn short_hash_cuts_nine_bytes() {
    // Four two-byte characters and one ASCII letter: nine bytes.
    assert_eq!(short_hash("ééééa").unwrap(), "ééééa");
    assert_eq!(short_hash("ééééab").unwrap(), "ééééa");
    // Eight bytes only.
    assert!(matches!(short_hash("éééé"), Err(Error::InvalidHash)));
    // Byte nine falls inside the last character.
    assert!(matches!(short_hash("aaaaaaaaé"), Err(Error::InvalidHash)));
    assert_eq!(short_hash("aaaaaaaéx").unwrap(), "aaaaaaaé");
}

#[test]
fn repository_checks_itself() {
    let exists = |_: &str| true;
    let repo = repo_path().to_repo(&mut Runner::new(&git_runner), &exists).unwrap();
    assert!(repo.verify(&mut Runner::new(&git_runner), &exists).is_ok());
    assert_eq!(repo.path(&mut Runner::new(&git_runner), &exists).unwrap(), "/r");
    assert_eq!(repo.branch(&mut Runner::new(&git_runner), &exists).unwrap(), "main");
    let archive = Archive::new_unchecked("/a".to_string());
    assert_eq!(
        repo.install_folder(&archive, &mut Runner::new(&git_runner), &exists).unwrap(),
        format!("/a/opensim-core-main-2023_05_01-{HASH}")
    );
    let results = ResultsFolder::new_unchecked("/res".to_string());
    assert_eq!(
        repo.results_folder(&results, &mut Runner::new(&git_runner), &exists).unwrap(),
        format!("/res/opensim-core-main-2023_05_01-{HASH}")
    );
}

#[test]
fn wrong_url_is_refused() {
    let exists = |_: &str| true;
    let mut p = repo_path();
    p.url = "someone-else/fork".to_string();
    assert!(matches!(p.to_repo(&mut Runner::new(&git_runner), &exists), Err(Error::UrlMismatch)));
    let missing = |_: &str| false;
    assert!(matches!(repo_path().to_repo(&mut Runner::new(&git_runner), &missing), Err(Error::RepositoryMissing)));
}

#[test]
fn installation_checks() {
    let archive = Archive::new_unchecked("/a".to_string());
    let exists = |_: &str| true;
    let repo = repo_path().to_repo(&mut Runner::new(&git_runner), &exists).unwrap();
    let failed_marked = |p: &str| p.ends_with("-failed") || !p.contains("-failed");
    assert!(repo.verify_installation(&archive, None, &mut Runner::new(&git_runner), &failed_marked).unwrap());
    let no_failed = |p: &str| !p.ends_with("-failed");
    assert!(repo.verify_installation(&archive, None, &mut Runner::new(&git_runner), &no_failed).unwrap());
    let no_install = |p: &str| !p.ends_with("-failed") && !p.ends_with("opensim-cmd");
    assert!(!repo.verify_installation(&archive, None, &mut Runner::new(&git_runner), &no_install).unwrap());
}

#[test]
fn dated_branch_commits() {
    let c = Commit::from_tuple((HASH.to_string(), "2023_05_01".to_string(), "main".to_string()));
    assert_eq!(c.short_hash().unwrap(), "012345678");
    let archive = Archive::new_unchecked("/a".to_string());
    assert_eq!(c.install_folder(&archive).unwrap(), format!("/a/opensim-core-main-2023_05_01-{HASH}"));
    let results = ResultsFolder::new_unchecked("/res".to_string());
    assert_eq!(c.results_folder(&results).unwrap(), format!("/res/results-main-2023_05_01-{HASH}"));
    let exists = |_: &str| true;
    assert!(c.verify_compiled_version(&archive, &mut Runner::new(&git_runner), &exists).unwrap());
    let absent = |_: &str| false;
    assert!(!c.verify_compiled_version(&archive, &mut Runner::new(&git_runner), &absent).unwrap());
}

#[test]
fn commits_read_from_the_log_text() {
    let runner = |inv: &Invocation| -> Result<CommandOutput, RunError> {
        let t = text_of(inv);
        let reply = if t == "git -C /r log main --after=2023-01-01" {
            "commit h2\nDate: Wed Aug 2 2023\ncommit h1\nDate: Tue Aug 1 2023\n"
        } else if t.contains("grep Date") {
            "2023 Aug 02\n2023 Aug 01\n"
        } else if t.contains("grep commit") {
            "h2\nh1\n"
        } else if t == "date -d 2023 Aug 02 +%Y_%m_%d" {
            "2023_08_02"
        } else if t == "date -d 2023 Aug 01 +%Y_%m_%d" {
            "2023_08_01"
        } else if t == "git -C /r symbolic-ref --short HEAD" {
            "main"
        } else {
            return Err(RunError { message: t });
        };
        Ok(output(reply, true))
    };
    let v = git::get_commits_since("/r", "main", "2023-01-01", &mut Runner::new(&runner)).unwrap();
    assert_eq!(v.len(), 2);
    assert_eq!(v[0].hash(), "h2");
    assert_eq!(v[0].date(), "2023_08_02");
    assert_eq!(v[1].branch(), "main");
    assert_eq!(git::read_current_branch("/r", &mut Runner::new(&runner)).unwrap(), "main");
}

#[test]
fn url_mismatch_switches_nothing() {
    let seen = std::cell::RefCell::new(Vec::new());
    let runner = |inv: &Invocation| -> Result<CommandOutput, RunError> {
        seen.borrow_mut().push(text_of(inv));
        git_runner(inv)
    };
    let mut wrong = repo_path();
    wrong.url = "somewhere/else".to_string();
    assert!(matches!(wrong.to_repo(&mut Runner::new(&runner), &|_: &str| true), Err(Error::UrlMismatch)));
    assert_eq!(seen.borrow().clone(), vec!["git -C /r remote -v | grep fetch".to_string()]);
    seen.borrow_mut().clear();
    assert!(matches!(repo_path().to_repo(&mut Runner::new(&runner), &|_: &str| false), Err(Error::RepositoryMissing)));
    assert!(seen.borrow().is_empty());
}

#[test]
fn checkout_of_the_checked_out_commit_runs_no_checkout() {
    let exists = |_: &str| true;
    let mut repo = repo_path().to_repo(&mut Runner::new(&git_runner), &exists).unwrap();
    let seen = std::cell::RefCell::new(Vec::new());
    let runner = |inv: &Invocation| -> Result<CommandOutput, RunError> {
        seen.borrow_mut().push(text_of(inv));
        git_runner(inv)
    };
    assert!(repo.checkout(HASH, &mut Runner::new(&runner), &exists).is_ok());
    assert!(seen.borrow().iter().all(|t| !t.contains("checkout")));
}

#[test]
fn last_commit_of_the_branch() {
    let exists = |_: &str| true;
    let repo = repo_path().to_repo(&mut Runner::new(&git_runner), &exists).unwrap();
    let runner = |inv: &Invocation| -> Result<CommandOutput, RunError> {
        let t = text_of(inv);
        if t == "git -C /r log main --pretty=format:%H,%cs" {
            Ok(output("abc,2023-05-02\ndef,2023-05-01\n", true))
        } else {
            git_runner(inv)
        }
    };
    let c = Commit::last_commit(&repo, &mut Runner::new(&runner), &exists).unwrap();
    assert_eq!(c.hash(), "abc");
    assert_eq!(c.date(), "2023_05_02");
    assert_eq!(c.branch(), "main");
    let empty = |inv: &Invocation| -> Result<CommandOutput, RunError> {
        if text_of(inv).starts_with("git -C /r log main") {
            Ok(output("", true))
        } else {
            git_runner(inv)
        }
    };
    assert!(matches!(Commit::last_commit(&repo, &mut Runner::new(&empty), &exists), Err(Error::EmptyOutput)));
}
