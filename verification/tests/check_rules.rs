use devtool::commands::check::{apply_rule, check_content, check_file, Issue, Rule, SourceFile};

fn rules(ids: &[&str]) -> Vec<String> {
    ids.iter().map(|id| id.to_string()).collect()
}

fn issue(rule: &str, line: usize, message: &str) -> Issue {
    Issue { rule: rule.to_string(), line, message: message.to_string() }
}

#[test]
fn no_todo_fires_on_todo() {
    assert_eq!(
        apply_rule("no-todo", "// TODO fix", 2),
        Some(issue("no-todo", 2, "Found TODO comment"))
    );
}

#[test]
fn no_fixme_fires_on_fixme() {
    assert_eq!(
        apply_rule("no-fixme", "x = 1; // FIXME", 17),
        Some(issue("no-fixme", 17, "Found FIXME comment"))
    );
}

#[test]
fn rule_does_not_fire_on_the_other_pattern() {
    assert_eq!(apply_rule("no-todo", "// FIXME later", 1), None);
    assert_eq!(apply_rule("no-fixme", "// TODO later", 1), None);
}

#[test]
fn matching_is_case_sensitive() {
    assert_eq!(apply_rule("no-todo", "// todo fix", 1), None);
    assert_eq!(apply_rule("no-todo", "// Todo fix", 1), None);
    assert_eq!(apply_rule("no-fixme", "// fixme", 1), None);
}

#[test]
fn matching_ignores_word_boundaries() {
    assert_eq!(
        apply_rule("no-todo", "MYTODOLIST", 4),
        Some(issue("no-todo", 4, "Found TODO comment"))
    );
    assert_eq!(
        apply_rule("no-fixme", "xFIXMEx", 5),
        Some(issue("no-fixme", 5, "Found FIXME comment"))
    );
}

#[test]
fn unknown_rule_reports_nothing() {
    assert_eq!(apply_rule("default", "TODO FIXME", 1), None);
    assert_eq!(apply_rule("", "TODO FIXME", 1), None);
    assert_eq!(apply_rule("no-todo ", "TODO FIXME", 1), None);
    assert_eq!(apply_rule("NO-TODO", "TODO FIXME", 1), None);
}

#[test]
fn rule_names_are_read_exactly() {
    assert_eq!(Rule::parse("no-todo"), Some(Rule::NoTodo));
    assert_eq!(Rule::parse("no-fixme"), Some(Rule::NoFixme));
    assert_eq!(Rule::parse("no-fix"), None);
    assert_eq!(Rule::parse("no-todos"), None);
    assert_eq!(Rule::NoTodo.pattern_str(), "TODO");
    assert_eq!(Rule::NoFixme.pattern_str(), "FIXME");
    assert_eq!(Rule::NoTodo.message_str(), "Found TODO comment");
    assert_eq!(Rule::NoFixme.message_str(), "Found FIXME comment");
    assert!(Rule::NoTodo.fires("xTODOx"));
    assert!(!Rule::NoTodo.fires("xTOD0x"));
}

#[test]
fn todo_line_gives_one_issue_at_its_position() {
    let content = "a\nb\nc TODO d\ne\n";
    assert_eq!(
        check_content(content, &rules(&["no-todo"])),
        vec![issue("no-todo", 3, "Found TODO comment")]
    );
    for position in 1..6 {
        let mut text = String::new();
        for line in 1..6 {
            text.push_str(if line == position { "here TODO\n" } else { "clean\n" });
        }
        assert_eq!(
            check_content(&text, &rules(&["no-todo"])),
            vec![issue("no-todo", position, "Found TODO comment")]
        );
    }
}

#[test]
fn clean_lines_give_no_issue() {
    let content = "fn main() {}\nlet todo = fixme;\n\nToDo FixMe\n";
    assert_eq!(check_content(content, &rules(&["no-todo"])), vec![]);
    assert_eq!(check_content(content, &rules(&["no-fixme"])), vec![]);
    assert_eq!(check_content(content, &rules(&["no-todo", "no-fixme"])), vec![]);
    assert_eq!(check_content(content, &rules(&[])), vec![]);
}

#[test]
fn unknown_rules_never_fail_and_never_report() {
    let file = SourceFile { path: "a.rs".to_string(), content: Ok("TODO\nFIXME\n".to_string()) };
    assert_eq!(check_file(&file, &rules(&["default", "no-hack", ""])), Ok(vec![]));
    assert_eq!(
        check_file(&file, &rules(&["default", "no-fixme", "other"])),
        Ok(vec![issue("no-fixme", 2, "Found FIXME comment")])
    );
}

#[test]
fn empty_file_has_no_issues() {
    let file = SourceFile { path: "empty.txt".to_string(), content: Ok(String::new()) };
    assert_eq!(check_file(&file, &rules(&["no-todo", "no-fixme"])), Ok(vec![]));
    assert_eq!(check_content("", &rules(&["no-todo", "no-fixme"])), vec![]);
}

#[test]
fn scenario_one_todo_on_line_two() {
    let file = SourceFile {
        path: "main.rs".to_string(),
        content: Ok("x=1\n// TODO fix\ny=2\n".to_string()),
    };
    assert_eq!(
        check_file(&file, &rules(&["no-todo", "no-fixme"])),
        Ok(vec![issue("no-todo", 2, "Found TODO comment")])
    );
}

#[test]
fn issues_come_by_line_then_by_rule() {
    let content = "FIXME and TODO\nclean\nTODO\nFIXME\n";
    assert_eq!(
        check_content(content, &rules(&["no-fixme", "no-todo"])),
        vec![
            issue("no-fixme", 1, "Found FIXME comment"),
            issue("no-todo", 1, "Found TODO comment"),
            issue("no-todo", 3, "Found TODO comment"),
            issue("no-fixme", 4, "Found FIXME comment"),
        ]
    );
    assert_eq!(
        check_content(content, &rules(&["no-todo", "no-fixme"])),
        vec![
            issue("no-todo", 1, "Found TODO comment"),
            issue("no-fixme", 1, "Found FIXME comment"),
            issue("no-todo", 3, "Found TODO comment"),
            issue("no-fixme", 4, "Found FIXME comment"),
        ]
    );
}

#[test]
fn a_rule_listed_twice_reports_twice() {
    assert_eq!(
        check_content("TODO\n", &rules(&["no-todo", "no-todo"])),
        vec![issue("no-todo", 1, "Found TODO comment"), issue("no-todo", 1, "Found TODO comment")]
    );
}

#[test]
fn blank_lines_count() {
    assert_eq!(
        check_content("\n\n\nTODO", &rules(&["no-todo"])),
        vec![issue("no-todo", 4, "Found TODO comment")]
    );
    assert_eq!(
        check_content("\r\n\r\nTODO\r\n", &rules(&["no-todo"])),
        vec![issue("no-todo", 3, "Found TODO comment")]
    );
}

#[test]
fn a_pattern_split_over_two_lines_does_not_match() {
    assert_eq!(check_content("TO\nDO\n", &rules(&["no-todo"])), vec![]);
    assert_eq!(check_content("FIX\r\nME", &rules(&["no-fixme"])), vec![]);
}

#[test]
fn unreadable_file_gives_read_error_with_its_path() {
    let file = SourceFile {
        path: "dir/bad.bin".to_string(),
        content: Err("stream did not contain valid UTF-8".to_string()),
    };
    let error = check_file(&file, &rules(&["no-todo"])).unwrap_err();
    assert_eq!(error.path, "dir/bad.bin");
    assert_eq!(error.reason, "stream did not contain valid UTF-8");
}

#[test]
fn check_content_agrees_with_a_direct_scan() {
    let samples = [
        "",
        "TODO",
        "a\nTODO b\r\nFIXME\n\nx TODO FIXME\r",
        "\n",
        "no newline at end FIXME",
        "ünïcödé TODO ✓\nFIXME→\n",
    ];
    let ids = rules(&["no-todo", "bogus", "no-fixme"]);
    for sample in samples {
        let mut expected = Vec::new();
        for (index, line) in sample.lines().enumerate() {
            if line.contains("TODO") {
                expected.push(issue("no-todo", index + 1, "Found TODO comment"));
            }
            if line.contains("FIXME") {
                expected.push(issue("no-fixme", index + 1, "Found FIXME comment"));
            }
        }
        assert_eq!(check_content(sample, &ids), expected);
    }
}
