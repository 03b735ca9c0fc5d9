use devtool::commands::check::{
    check_files, format_issue, load_ignore_patterns, make_report, render_results, run,
    select_files, should_ignore, CheckError, CheckReport, CheckResult, FileIssues, Issue,
    ReadError, SourceFile,
};
use devtool::commands::check_run::CheckRun;
use devtool::config::{BuildConfig, CheckConfig, Config};

fn strings(items: &[&str]) -> Vec<String> {
    items.iter().map(|item| item.to_string()).collect()
}

fn config(rules: &[&str], ignore: &[&str]) -> Config {
    Config {
        name: "demo".to_string(),
        version: "0.1.0".to_string(),
        build: BuildConfig { target_dir: "target".to_string(), features: vec![] },
        check: CheckConfig { rules: strings(rules), ignore_patterns: strings(ignore) },
    }
}

fn readable(path: &str, content: &str) -> SourceFile {
    SourceFile { path: path.to_string(), content: Ok(content.to_string()) }
}

fn unreadable(path: &str, reason: &str) -> SourceFile {
    SourceFile { path: path.to_string(), content: Err(reason.to_string()) }
}

fn issue(rule: &str, line: usize, message: &str) -> Issue {
    Issue { rule: rule.to_string(), line, message: message.to_string() }
}

#[test]
fn only_the_file_with_issues_is_in_the_result() {
    let files = vec![readable("a.txt", "fine\n"), readable("b.txt", "x\nTODO\n")];
    let result = check_files(&files, &strings(&["no-todo", "no-fixme"])).unwrap();
    assert_eq!(
        result.entries(),
        &vec![FileIssues {
            path: "b.txt".to_string(),
            issues: vec![issue("no-todo", 2, "Found TODO comment")],
        }]
    );
    assert_eq!(result.len(), 1);
    assert!(!result.is_empty());
    assert!(result.get("a.txt").is_none());
    assert_eq!(result.get("b.txt"), Some(&vec![issue("no-todo", 2, "Found TODO comment")]));

    let report = run(&files, &config(&["no-todo", "no-fixme"], &[]));
    assert_eq!(report.outcome, Err(CheckError::IssuesFound));
    assert_eq!(
        report.lines,
        strings(&["Checking 2 files", "b.txt:", "  line 2: [no-todo] Found TODO comment"])
    );
}

#[test]
fn files_without_issues_pass() {
    let files = vec![readable("a.txt", "fine\n"), readable("b.txt", "also fine\n")];
    let result = check_files(&files, &strings(&["no-todo", "no-fixme"])).unwrap();
    assert!(result.is_empty());
    assert_eq!(result.len(), 0);
    assert_eq!(result.entries(), &Vec::<FileIssues>::new());

    let report = run(&files, &config(&["no-todo", "no-fixme"], &[]));
    assert_eq!(report.outcome, Ok(()));
    assert_eq!(report.lines, strings(&["Checking 2 files"]));
}

#[test]
fn no_files_pass() {
    let report = run(&vec![], &config(&["no-todo"], &[]));
    assert_eq!(report.outcome, Ok(()));
    assert_eq!(report.lines, strings(&["Checking 0 files"]));
}

#[test]
fn running_twice_gives_the_same_report() {
    let files = vec![
        readable("b.txt", "TODO\nFIXME\n"),
        readable("a.txt", "x\n"),
        readable("c.txt", "FIXME TODO\n"),
    ];
    let settings = config(&["no-fixme", "no-todo"], &[]);
    let first = run(&files, &settings);
    let second = run(&files, &settings);
    assert_eq!(first, second);
    assert_eq!(first.lines, second.lines);
    assert_eq!(first.outcome, second.outcome);
}

#[test]
fn report_follows_the_order_of_the_files() {
    let files = vec![
        readable("z.txt", "TODO\n"),
        readable("m.txt", "clean\n"),
        readable("a.txt", "one\ntwo FIXME\nthree TODO FIXME\n"),
    ];
    let report = run(&files, &config(&["no-todo", "no-fixme"], &[]));
    assert_eq!(
        report.lines,
        strings(&[
            "Checking 3 files",
            "z.txt:",
            "  line 1: [no-todo] Found TODO comment",
            "a.txt:",
            "  line 2: [no-fixme] Found FIXME comment",
            "  line 3: [no-todo] Found TODO comment",
            "  line 3: [no-fixme] Found FIXME comment",
        ])
    );
    assert_eq!(report.outcome, Err(CheckError::IssuesFound));
}

#[test]
fn first_unreadable_file_ends_the_run() {
    let files = vec![
        readable("a.txt", "TODO\n"),
        unreadable("b.bin", "invalid data"),
        unreadable("c.bin", "permission denied"),
        readable("d.txt", "FIXME\n"),
    ];
    let rules = strings(&["no-todo", "no-fixme"]);
    assert_eq!(
        check_files(&files, &rules),
        Err(ReadError { path: "b.bin".to_string(), reason: "invalid data".to_string() })
    );
    let report = run(&files, &config(&["no-todo", "no-fixme"], &[]));
    assert_eq!(report.lines, strings(&["Checking 4 files"]));
    assert_eq!(
        report.outcome,
        Err(CheckError::Read(ReadError {
            path: "b.bin".to_string(),
            reason: "invalid data".to_string(),
        }))
    );
}

#[test]
fn error_messages_name_what_went_wrong() {
    let read = CheckError::Read(ReadError {
        path: "src/x.rs".to_string(),
        reason: "No such file or directory".to_string(),
    });
    assert_eq!(read.message(), "cannot read src/x.rs: No such file or directory");
    assert_eq!(CheckError::IssuesFound.message(), "Check failed with issues");
}

#[test]
fn a_path_checked_twice_keeps_one_entry_in_its_first_place() {
    let files = vec![
        readable("a.txt", "TODO\n"),
        readable("b.txt", "FIXME\n"),
        readable("a.txt", "x\ny\nFIXME\n"),
    ];
    let result = check_files(&files, &strings(&["no-todo", "no-fixme"])).unwrap();
    assert_eq!(
        result.entries(),
        &vec![
            FileIssues {
                path: "a.txt".to_string(),
                issues: vec![issue("no-fixme", 3, "Found FIXME comment")],
            },
            FileIssues {
                path: "b.txt".to_string(),
                issues: vec![issue("no-fixme", 1, "Found FIXME comment")],
            },
        ]
    );
}

#[test]
fn a_later_clean_reading_leaves_the_earlier_entry() {
    let files = vec![readable("a.txt", "TODO\n"), readable("a.txt", "clean\n")];
    let result = check_files(&files, &strings(&["no-todo"])).unwrap();
    assert_eq!(result.len(), 1);
    assert_eq!(result.get("a.txt"), Some(&vec![issue("no-todo", 1, "Found TODO comment")]));
}

#[test]
fn record_keeps_paths_apart_and_skips_empty_lists() {
    let result = CheckResult::new();
    assert!(result.is_empty());
    let result = result.record("a".to_string(), vec![]);
    assert!(result.is_empty());
    let result = result.record("a".to_string(), vec![issue("no-todo", 1, "Found TODO comment")]);
    let result = result.record("b".to_string(), vec![issue("no-fixme", 2, "Found FIXME comment")]);
    let result = result.record("a".to_string(), vec![issue("no-fixme", 9, "Found FIXME comment")]);
    let result = result.record("b".to_string(), vec![]);
    assert_eq!(result.len(), 2);
    assert_eq!(result.entries()[0].path, "a");
    assert_eq!(result.entries()[0].issues, vec![issue("no-fixme", 9, "Found FIXME comment")]);
    assert_eq!(result.entries()[1].path, "b");
    assert_eq!(result.entries()[1].issues, vec![issue("no-fixme", 2, "Found FIXME comment")]);
    assert_eq!(
        render_results(&result),
        strings(&[
            "a:",
            "  line 9: [no-fixme] Found FIXME comment",
            "b:",
            "  line 2: [no-fixme] Found FIXME comment",
        ])
    );
}

#[test]
fn issue_lines_are_written_exactly() {
    assert_eq!(
        format_issue(&issue("no-todo", 1, "Found TODO comment")),
        "  line 1: [no-todo] Found TODO comment"
    );
    assert_eq!(
        format_issue(&issue("no-fixme", 1234567, "Found FIXME comment")),
        "  line 1234567: [no-fixme] Found FIXME comment"
    );
    assert_eq!(format_issue(&issue("r", 0, "m")), "  line 0: [r] m");
    assert_eq!(
        format_issue(&issue("r", usize::MAX, "m")),
        format!("  line {}: [r] m", usize::MAX)
    );
}

#[test]
fn rendering_an_empty_result_prints_nothing() {
    assert_eq!(render_results(&CheckResult::new()), Vec::<String>::new());
}

#[test]
fn ignore_patterns_come_from_the_configuration() {
    let settings = config(&[], &["target/", ".git"]);
    assert_eq!(load_ignore_patterns(&settings), strings(&["target/", ".git"]));
    assert_eq!(load_ignore_patterns(&config(&[], &[])), Vec::<String>::new());
}

#[test]
fn a_path_is_ignored_when_it_contains_a_pattern() {
    let patterns = strings(&["target/", ".git"]);
    assert!(should_ignore("proj/target/debug/x.rs", &patterns));
    assert!(should_ignore("proj/.gitignore", &patterns));
    assert!(!should_ignore("proj/src/main.rs", &patterns));
    assert!(!should_ignore("proj/target", &patterns));
    assert!(!should_ignore("anything", &[].to_vec()));
    assert!(should_ignore("anything", &strings(&["zzz", ""])));
}

#[test]
fn ignored_paths_are_left_out_in_order() {
    let paths = strings(&["src/a.rs", "target/b.rs", "src/.git/c", "d.rs", "target"]);
    assert_eq!(
        select_files(&paths, &strings(&["target/", ".git"])),
        strings(&["src/a.rs", "d.rs", "target"])
    );
    assert_eq!(select_files(&paths, &vec![]), paths);
    assert_eq!(select_files(&paths, &strings(&[""])), Vec::<String>::new());
    assert_eq!(select_files(&vec![], &strings(&["x"])), Vec::<String>::new());
}

fn drive(files: &[SourceFile], rules: &[&str]) -> (CheckReport, usize) {
    let paths: Vec<String> = files.iter().map(|file| file.path.clone()).collect();
    let mut check = CheckRun::new(paths, strings(rules));
    let mut reads = 0;
    loop {
        let index = match check.next_path() {
            Some(path) => {
                assert_eq!(path, files[reads].path);
                reads
            }
            None => break,
        };
        check = check.supply(files[index].content.clone());
        reads += 1;
    }
    (check.finish(), reads)
}

#[test]
fn a_run_taken_file_by_file_gives_the_same_report() {
    let cases: Vec<Vec<SourceFile>> = vec![
        vec![],
        vec![readable("a.txt", "fine\n")],
        vec![readable("a.txt", "fine\n"), readable("b.txt", "x\nTODO\n")],
        vec![readable("z", "FIXME\nTODO"), readable("a", ""), readable("z", "TODO FIXME")],
        vec![readable("a", "TODO"), unreadable("b", "denied"), readable("c", "FIXME")],
        vec![unreadable("a", "gone"), unreadable("b", "denied")],
    ];
    for files in cases {
        let (stepwise, _) = drive(&files, &["no-todo", "no-fixme"]);
        let whole = run(&files, &config(&["no-todo", "no-fixme"], &[]));
        assert_eq!(stepwise, whole);
    }
}

#[test]
fn a_run_asks_for_no_file_after_a_read_error() {
    let files = vec![
        readable("a", "TODO"),
        unreadable("b", "denied"),
        readable("c", "FIXME"),
        readable("d", "FIXME"),
    ];
    let mut check = CheckRun::new(strings(&["a", "b", "c", "d"]), strings(&["no-todo"]));
    check = check.supply(files[0].content.clone());
    check = check.supply(files[1].content.clone());
    assert_eq!(check.next_path(), None);
    assert_eq!(check.result().len(), 1);
    assert_eq!(check.result().get("a"), Some(&vec![issue("no-todo", 1, "Found TODO comment")]));
    let (report, reads) = drive(&files, &["no-todo"]);
    assert_eq!(reads, 2);
    assert_eq!(report.lines, strings(&["Checking 4 files"]));
    assert_eq!(
        report.outcome,
        Err(CheckError::Read(ReadError { path: "b".to_string(), reason: "denied".to_string() }))
    );
}

#[test]
fn a_finished_run_takes_nothing_more_in() {
    let check = CheckRun::new(strings(&["a"]), strings(&["no-todo"]));
    assert_eq!(check.next_path(), Some("a"));
    let check = check.supply(Ok("clean".to_string()));
    assert_eq!(check.next_path(), None);
    let check = check.supply(Ok("TODO".to_string()));
    let check = check.supply(Err("late".to_string()));
    let report = check.finish();
    assert_eq!(report.lines, strings(&["Checking 1 files"]));
    assert_eq!(report.outcome, Ok(()));
}

#[test]
fn reports_are_assembled_from_count_and_outcome() {
    let failed = make_report(
        3,
        Err(ReadError { path: "p".to_string(), reason: "r".to_string() }),
    );
    assert_eq!(failed.lines, strings(&["Checking 3 files"]));
    let result = CheckResult::new().record("p".to_string(), vec![issue("no-todo", 12, "m")]);
    let found = make_report(10, Ok(result));
    assert_eq!(found.lines, strings(&["Checking 10 files", "p:", "  line 12: [no-todo] m"]));
    assert_eq!(found.outcome, Err(CheckError::IssuesFound));
    let passed = make_report(0, Ok(CheckResult::new()));
    assert_eq!(passed.lines, strings(&["Checking 0 files"]));
    assert_eq!(passed.outcome, Ok(()));
}
