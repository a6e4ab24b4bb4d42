use osimperf_lib::command::{CommandOutput, Invocation, RunError, Runner};
use osimperf_lib::common::git::{
    self, branch_in_listing, keep_first_of_each_day, keep_first_of_each_month, parse_commit_line,
    parse_commit_log, Commit, Date,
};
use osimperf_lib::common::git_hashes;
use osimperf_lib::Error;

fn output(stdout: &str, success: bool) -> CommandOutput {
    CommandOutput { stdout: stdout.to_string(), stderr: String::new(), success, duration_ns: 0 }
}

fn text_of(inv: &Invocation) -> String {
    match inv {
        Invocation::Single(c) => c.print_command(),
        Invocation::Piped(p) => p.print_command(),
    }
}

fn commit(hash: &str, date: &str) -> Commit {
    Commit { hash: hash.to_string(), date: date.to_string() }
}

fn hashes(v: &[Commit]) -> Vec<String> {
    v.iter().map(|c| c.hash.clone()).collect()
}

#[test]
fn commit_line_fields() {
    let (h, d) = parse_commit_line("abc,2023-08-02").unwrap();
    assert_eq!(h, "abc");
    assert_eq!(d, "2023_08_02");
    assert!(matches!(parse_commit_line("abc"), Err(Error::MissingDate)));
}

#[test]
fn commit_log_lines() {
    let v = parse_commit_log("a,2023-01-02\nb,2023-01-01\n").unwrap();
    assert_eq!(v, vec![
        ("a".to_string(), "2023_01_02".to_string()),
        ("b".to_string(), "2023_01_01".to_string()),
    ]);
    assert!(matches!(parse_commit_log("a,2023-01-02\nbroken\n"), Err(Error::MissingDate)));
}

#[test]
fn daily_commits_keep_the_first_of_each_day() {
    let v = vec![
        commit("a", "2023_01_02"),
        commit("b", "2023_01_02"),
        commit("c", "2023_01_01"),
        commit("d", "2023_01_02"),
    ];
    assert_eq!(hashes(&keep_first_of_each_day(v)), vec!["a", "c", "d"]);
    assert!(keep_first_of_each_day(Vec::new()).is_empty());
}

#[test]
fn monthly_commits_keep_the_first_of_each_month() {
    let v = vec![
        commit("a", "2023_02_10"),
        commit("b", "2023_02_01"),
        commit("c", "2023_01_31"),
        commit("d", "2023_01_02"),
    ];
    assert_eq!(hashes(&keep_first_of_each_month(v).unwrap()), vec!["a", "c"]);
    let alone = vec![commit("a", "2023")];
    assert_eq!(hashes(&keep_first_of_each_month(alone).unwrap()), vec!["a"]);
    let short = vec![commit("a", "2023_01_01"), commit("b", "2023")];
    assert!(matches!(keep_first_of_each_month(short), Err(Error::MalformedDate)));
}

#[test]
fn monthly_commits_compare_seven_bytes() {
    // "é" takes two bytes: both dates start with the same seven bytes.
    let v = vec![commit("a", "2023_éa9"), commit("b", "2023_éb1")];
    assert_eq!(hashes(&keep_first_of_each_month(v).unwrap()), vec!["a"]);
    // Seven bytes but five characters.
    let v = vec![commit("a", "20ééa1"), commit("b", "20ééa2")];
    assert_eq!(hashes(&keep_first_of_each_month(v).unwrap()), vec!["a"]);
    // Byte seven inside a character.
    let v = vec![commit("a", "2023_0é"), commit("b", "2023_01")];
    assert!(matches!(keep_first_of_each_month(v), Err(Error::MalformedDate)));
}

#[test]
fn branch_listing_is_trimmed() {
    assert!(branch_in_listing("  main\n  dev\n", "main"));
    assert!(!branch_in_listing("  mainline\n", "main"));
}

#[test]
fn chrono_reads_dates() {
    assert_eq!(Date::parse("2023_08_02"), Some(Date { year: 2023, month: 8, day: 2 }));
    assert_eq!(Date::parse("2023_02_30"), None);
    assert_eq!(Date::parse("not a date"), None);
    let c = commit("a", "2019_01_01");
    assert_eq!(c.date().unwrap(), Date { year: 2019, month: 1, day: 1 });
    assert!(matches!(commit("a", "x").date(), Err(Error::MalformedDate)));
    let a = Date { year: 2020, month: 5, day: 1 };
    let b = Date { year: 2020, month: 5, day: 2 };
    assert!(a.is_before(&b));
    assert!(!b.is_before(&a));
    assert!(!a.is_before(&a));
}

#[test]
fn reading_the_repository() {
    let runner = |inv: &Invocation| -> Result<CommandOutput, RunError> {
        match text_of(inv).as_str() {
            "git -C /r rev-parse HEAD" => Ok(output("0123\n", true)),
            "git -C /r rev-parse --abbrev-ref HEAD" => Ok(output("main\n", true)),
            "git -C /r log main --pretty=format:%H,%cs" => Ok(output("h2,2023-05-02\nh1,2023-05-01", true)),
            "git -C /r remote -v | grep fetch" => Ok(output("origin url (fetch)\n", true)),
            other => Err(RunError { message: other.to_string() }),
        }
    };
    assert_eq!(git::read_current_commit("/r", &mut Runner::new(&runner)).unwrap(), "0123");
    assert_eq!(git::read_current_branch("/r", &mut Runner::new(&runner)).unwrap(), "main");
    let last = git::get_last_commit("/r", "main", &mut Runner::new(&runner)).unwrap();
    assert_eq!(last.hash, "h2");
    assert_eq!(last.date, "2023_05_02");
    let all = git::get_commits_since("/r", "main", None, None, &mut Runner::new(&runner)).unwrap();
    assert_eq!(all.len(), 2);
    let exists = |_: &str| true;
    assert_eq!(git::read_repo_url("/r", &mut Runner::new(&runner), &exists).unwrap(), "origin url (fetch)");
    let missing = |_: &str| false;
    assert!(matches!(git::read_repo_url("/r", &mut Runner::new(&runner), &missing), Err(Error::RepositoryMissing)));
    assert!(matches!(
        git::verify_repository("/r", "other", &mut Runner::new(&runner), &exists),
        Err(Error::UrlMismatch)
    ));
    assert!(matches!(git::read_current_commit("/other", &mut Runner::new(&runner)), Err(Error::Run(_))));
}

#[test]
fn dating_by_hash() {
    let runner = |inv: &Invocation| -> Result<CommandOutput, RunError> {
        match text_of(inv).as_str() {
            "git -C /r show -s --format=%cs h1" => Ok(output("2023-05-01\n", true)),
            "date -d 2023-05-01 +%Y_%m_%d" => Ok(output("2023_05_01\n", true)),
            other => Err(RunError { message: other.to_string() }),
        }
    };
    assert_eq!(git_hashes::date_of_commit("/r", "h1", &mut Runner::new(&runner)).unwrap(), "2023_05_01");
    assert!(git_hashes::date_of_commit("/r", "h2", &mut Runner::new(&runner)).is_err());
}

#[test]
fn iso_text_matches_chrono() {
    for (y, m, d) in [(2023, 8, 2), (1, 1, 1), (0, 12, 31), (9999, 1, 9), (12345, 1, 1), (-1, 1, 1), (-44, 3, 15)] {
        let ours = Date { year: y, month: m, day: d }.to_iso_text();
        let theirs = chrono::NaiveDate::from_ymd_opt(y, m, d).unwrap().to_string();
        assert_eq!(ours, theirs);
    }
    assert_eq!(Date { year: 2023, month: 8, day: 2 }.to_iso_text(), "2023-08-02");
}

#[test]
fn last_commit_on_a_day() {
    let runner = |inv: &Invocation| -> Result<CommandOutput, RunError> {
        match text_of(inv).as_str() {
            "git -C /r log main --pretty=format:%H,%cs --after=2023-05-01 --before=2023-05-01" => {
                Ok(output("h2,2023-05-01\nh1,2023-05-01\n", true))
            },
            "git -C /r log main --pretty=format:%H,%cs --after=2023-05-02 --before=2023-05-02" => {
                Ok(output("", true))
            },
            other => Err(RunError { message: other.to_string() }),
        }
    };
    let day = Date { year: 2023, month: 5, day: 1 };
    let c = Commit::new_last_at_date("/r", "main", &day, &mut Runner::new(&runner)).unwrap().unwrap();
    assert_eq!(c.hash, "h2");
    let empty = Date { year: 2023, month: 5, day: 2 };
    assert!(Commit::new_last_at_date("/r", "main", &empty, &mut Runner::new(&runner)).unwrap().is_none());
}

#[test]
fn listings_agree_on_one_repository() {
    let runner = |inv: &Invocation| -> Result<CommandOutput, RunError> {
        let t = text_of(inv);
        if t.starts_with("git -C /r log main --pretty=format:%H,%cs") {
            Ok(output("h2,2023-05-02\nh1,2023-05-01", true))
        } else if t.starts_with("git -C /r branch --contains h1") {
            Ok(output("  dev\n  main\n  maintenance\n", true))
        } else {
            Err(RunError { message: t })
        }
    };
    let last = git::get_last_commit("/r", "main", &mut Runner::new(&runner)).unwrap();
    let all = git::get_commits_since("/r", "main", None, None, &mut Runner::new(&runner)).unwrap();
    assert_eq!((last.hash.clone(), last.date.clone()), (all[0].hash.clone(), all[0].date.clone()));
    let from_hash =
        git::get_commit_from_hash("/r", "main", Some("2023-01-01"), None, &mut Runner::new(&runner)).unwrap();
    let since = git::get_commits_since("/r", "main", Some("2023-01-01"), None, &mut Runner::new(&runner)).unwrap();
    assert_eq!(hashes(&from_hash), hashes(&since));
    let listing = git::commit_merged_to("/r", "h1", &mut Runner::new(&runner)).unwrap();
    assert!(git::was_commit_merged_to_branch("/r", "main", "h1", &mut Runner::new(&runner)).unwrap());
    assert!(listing.lines().any(|l| l.trim() == "main"));
    assert!(!git::was_commit_merged_to_branch("/r", "maint", "h1", &mut Runner::new(&runner)).unwrap());
}
