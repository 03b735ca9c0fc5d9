//! What holds of the check on every input, stated over the functions that
//! its contracts are written in.

use crate::commands::check::{
    checked_files, content_issues, file_issues, line_issues, numbered_issues, recorded,
    rule_issue, run_report, well_formed, with_entry, CheckErrorView, CheckReport,
    CheckReportView, FileIssuesView, IssueView, ReadErrorView, Rule, SourceFileView, has_path,
    progress_line,
};
use crate::text::{has_substring, lines_of};
use vstd::prelude::*;

verus! {

/// A line holds neither of the texts that the known rules look for.
pub open spec fn clean_line(line: Seq<char>) -> bool {
    !has_substring(line, "TODO"@) && !has_substring(line, "FIXME"@)
}

/// A line that contains `TODO`, checked under the one rule `no-todo`, gives
/// exactly one issue: of that rule, with the line's own number.
pub proof fn lemma_todo_line_gives_one_issue(line: Seq<char>, number: nat)
    requires
        has_substring(line, "TODO"@),
    ensures
        line_issues(seq!["no-todo"@], line, number) == seq![
            IssueView { rule: "no-todo"@, line: number, message: "Found TODO comment"@ },
        ],
{
    let rules = seq!["no-todo"@];
    assert(rules.drop_last() =~= Seq::<Seq<char>>::empty());
    assert(line_issues(rules.drop_last(), line, number) =~= Seq::<IssueView>::empty());
    assert(rules.last() == "no-todo"@);
    let issue = IssueView { rule: "no-todo"@, line: number, message: "Found TODO comment"@ };
    assert(rule_issue(rules.last(), line, number) == Some(issue));
    assert(Seq::<IssueView>::empty().push(issue) =~= seq![issue]);
}

/// The issues of the first `i + 1` lines are those of the first `i` lines,
/// followed by those of line `i + 1`: every line is numbered by its position,
/// counted from 1.
pub proof fn lemma_issues_by_line(rules: Seq<Seq<char>>, lines: Seq<Seq<char>>, i: int)
    requires
        0 <= i < lines.len(),
    ensures
        numbered_issues(rules, lines.take(i + 1)) == numbered_issues(rules, lines.take(i))
            + line_issues(rules, lines[i], (i + 1) as nat),
{
    let upto = lines.take(i + 1);
    assert(upto.drop_last() =~= lines.take(i));
    assert(upto.last() == lines[i]);
}

/// Every issue of a line carries the number of that line.
pub proof fn lemma_line_issues_carry_number(rules: Seq<Seq<char>>, line: Seq<char>, number: nat)
    ensures
        forall|k: int|
            0 <= k < line_issues(rules, line, number).len() ==> (#[trigger] line_issues(
                rules,
                line,
                number,
            )[k]).line == number,
    decreases rules.len(),
{
    if rules.len() > 0 {
        let before = line_issues(rules.drop_last(), line, number);
        let all = line_issues(rules, line, number);
        lemma_line_issues_carry_number(rules.drop_last(), line, number);
        assert forall|k: int| 0 <= k < all.len() implies (#[trigger] all[k]).line == number by {
            if k < before.len() {
                assert(all[k] == before[k]);
            }
        }
    }
}

/// Every issue of a text carries the number of one of its lines, counted
/// from 1, and the issues come in the order of the lines.
pub proof fn lemma_issue_lines_in_order(rules: Seq<Seq<char>>, lines: Seq<Seq<char>>)
    ensures
        forall|k: int|
            0 <= k < numbered_issues(rules, lines).len() ==> 1 <= (#[trigger] numbered_issues(
                rules,
                lines,
            )[k]).line <= lines.len(),
        forall|j: int, k: int|
            0 <= j <= k < numbered_issues(rules, lines).len() ==> (#[trigger] numbered_issues(
                rules,
                lines,
            )[j]).line <= (#[trigger] numbered_issues(rules, lines)[k]).line,
    decreases lines.len(),
{
    if lines.len() > 0 {
        let before = numbered_issues(rules, lines.drop_last());
        let last = line_issues(rules, lines.last(), lines.len() as nat);
        let all = numbered_issues(rules, lines);
        lemma_issue_lines_in_order(rules, lines.drop_last());
        lemma_line_issues_carry_number(rules, lines.last(), lines.len() as nat);
        assert forall|k: int| 0 <= k < all.len() implies 1 <= (#[trigger] all[k]).line
            <= lines.len() by {
            if k < before.len() {
                assert(all[k] == before[k]);
            } else {
                assert(all[k] == last[k - before.len()]);
            }
        }
        assert forall|j: int, k: int| 0 <= j <= k < all.len() implies (#[trigger] all[j]).line <= (
        #[trigger] all[k]).line by {
            if k < before.len() {
                assert(all[j] == before[j] && all[k] == before[k]);
            } else if j < before.len() {
                assert(all[j] == before[j] && all[k] == last[k - before.len()]);
            } else {
                assert(all[j] == last[j - before.len()] && all[k] == last[k - before.len()]);
            }
        }
    }
}

/// A line that contains neither `TODO` nor `FIXME` gives no issue, whatever
/// the rules.
pub proof fn lemma_clean_line_gives_no_issue(rules: Seq<Seq<char>>, line: Seq<char>, number: nat)
    requires
        clean_line(line),
    ensures
        line_issues(rules, line, number) == Seq::<IssueView>::empty(),
    decreases rules.len(),
{
    if rules.len() > 0 {
        lemma_clean_line_gives_no_issue(rules.drop_last(), line, number);
        assert(rule_issue(rules.last(), line, number) is None);
    }
}

/// A text whose lines contain neither `TODO` nor `FIXME` gives no issue,
/// whatever the rules.
pub proof fn lemma_clean_lines_give_no_issue(rules: Seq<Seq<char>>, lines: Seq<Seq<char>>)
    requires
        forall|i: int| 0 <= i < lines.len() ==> clean_line(#[trigger] lines[i]),
    ensures
        numbered_issues(rules, lines) == Seq::<IssueView>::empty(),
    decreases lines.len(),
{
    if lines.len() > 0 {
        let before = lines.drop_last();
        assert forall|i: int| 0 <= i < before.len() implies clean_line(#[trigger] before[i]) by {
            assert(before[i] == lines[i]);
        }
        lemma_clean_lines_give_no_issue(rules, before);
        assert(clean_line(lines[lines.len() - 1]));
        lemma_clean_line_gives_no_issue(rules, lines.last(), lines.len() as nat);
        assert(numbered_issues(rules, lines) =~= Seq::<IssueView>::empty());
    }
}

/// Every issue of a line names a rule that the check knows: an identifier
/// that names no rule reports nothing.
pub proof fn lemma_line_issues_name_known_rules(
    rules: Seq<Seq<char>>,
    line: Seq<char>,
    number: nat,
)
    ensures
        forall|k: int|
            0 <= k < line_issues(rules, line, number).len() ==> Rule::named(
                (#[trigger] line_issues(rules, line, number)[k]).rule,
            ) is Some,
    decreases rules.len(),
{
    if rules.len() > 0 {
        lemma_line_issues_name_known_rules(rules.drop_last(), line, number);
    }
}

/// Every issue of a text names a rule that the check knows.
pub proof fn lemma_issues_name_known_rules(rules: Seq<Seq<char>>, lines: Seq<Seq<char>>)
    ensures
        forall|k: int|
            0 <= k < numbered_issues(rules, lines).len() ==> Rule::named(
                (#[trigger] numbered_issues(rules, lines)[k]).rule,
            ) is Some,
    decreases lines.len(),
{
    if lines.len() > 0 {
        lemma_issues_name_known_rules(rules, lines.drop_last());
        lemma_line_issues_name_known_rules(rules, lines.last(), lines.len() as nat);
    }
}

/// Under identifiers that name no rule, no text gives an issue.
pub proof fn lemma_unknown_rules_give_no_issue(rules: Seq<Seq<char>>, content: Seq<char>)
    requires
        forall|i: int| 0 <= i < rules.len() ==> Rule::named(#[trigger] rules[i]) is None,
    ensures
        content_issues(rules, content) == Seq::<IssueView>::empty(),
{
    let lines = lines_of(content);
    lemma_issues_from_configured_rules(rules, lines);
    let issues = numbered_issues(rules, lines);
    if issues.len() > 0 {
        let id = issues[0].rule;
        lemma_issues_name_known_rules(rules, lines);
        assert(rules.contains(id));
        assert(false);
    }
    assert(issues =~= Seq::<IssueView>::empty());
}

/// Every issue of a line carries one of the configured identifiers.
pub proof fn lemma_line_issues_from_configured_rules(
    rules: Seq<Seq<char>>,
    line: Seq<char>,
    number: nat,
)
    ensures
        forall|k: int|
            0 <= k < line_issues(rules, line, number).len() ==> rules.contains(
                (#[trigger] line_issues(rules, line, number)[k]).rule,
            ),
    decreases rules.len(),
{
    if rules.len() > 0 {
        let before = rules.drop_last();
        lemma_line_issues_from_configured_rules(before, line, number);
        assert forall|k: int| 0 <= k < line_issues(rules, line, number).len() implies rules.contains(
            (#[trigger] line_issues(rules, line, number)[k]).rule,
        ) by {
            if k < line_issues(before, line, number).len() {
                let id = line_issues(before, line, number)[k].rule;
                assert(before.contains(id));
                let at = choose|at: int| 0 <= at < before.len() && before[at] == id;
                assert(rules[at] == id);
            } else {
                assert(rules[rules.len() - 1] == rules.last());
            }
        }
    }
}

/// Every issue of a text carries one of the configured identifiers.
pub proof fn lemma_issues_from_configured_rules(rules: Seq<Seq<char>>, lines: Seq<Seq<char>>)
    ensures
        forall|k: int|
            0 <= k < numbered_issues(rules, lines).len() ==> rules.contains(
                (#[trigger] numbered_issues(rules, lines)[k]).rule,
            ),
    decreases lines.len(),
{
    if lines.len() > 0 {
        let before = numbered_issues(rules, lines.drop_last());
        let last = line_issues(rules, lines.last(), lines.len() as nat);
        lemma_issues_from_configured_rules(rules, lines.drop_last());
        lemma_line_issues_from_configured_rules(rules, lines.last(), lines.len() as nat);
        assert forall|k: int| 0 <= k < numbered_issues(rules, lines).len() implies rules.contains(
            (#[trigger] numbered_issues(rules, lines)[k]).rule,
        ) by {
            if k < before.len() {
                assert(numbered_issues(rules, lines)[k] == before[k]);
            } else {
                assert(numbered_issues(rules, lines)[k] == last[k - before.len()]);
            }
        }
    }
}

/// Whether a file can be checked depends on the file alone: no rule
/// identifier, known or not, makes a check fail.
pub proof fn lemma_rules_cause_no_failure(file: SourceFileView, rules: Seq<Seq<char>>)
    ensures
        file_issues(file, rules) is Err <==> file.content is Err,
{
}

/// An empty file has no issues, whatever the rules.
pub proof fn lemma_empty_file_has_no_issues(path: Seq<char>, rules: Seq<Seq<char>>)
    ensures
        content_issues(rules, Seq::<char>::empty()) == Seq::<IssueView>::empty(),
        file_issues(SourceFileView { path, content: Ok(Seq::<char>::empty()) }, rules) == Ok::<
            Seq<IssueView>,
            ReadErrorView,
        >(Seq::<IssueView>::empty()),
{
}

/// The result of a run is well formed: no path has two entries, and every
/// entry has at least one issue.
pub proof fn lemma_checked_files_well_formed(files: Seq<SourceFileView>, rules: Seq<Seq<char>>)
    ensures
        checked_files(files, rules) matches Ok(entries) ==> well_formed(entries),
    decreases files.len(),
{
    if files.len() > 0 {
        lemma_checked_files_well_formed(files.drop_last(), rules);
        if let Ok(before) = checked_files(files.drop_last(), rules) {
            if let Ok(issues) = file_issues(files.last(), rules) {
                lemma_recorded_well_formed(before, files.last().path, issues);
            }
        }
    }
}

/// Recording the issues of a file keeps a result well formed.
pub proof fn lemma_recorded_well_formed(
    entries: Seq<FileIssuesView>,
    path: Seq<char>,
    issues: Seq<IssueView>,
)
    requires
        well_formed(entries),
    ensures
        well_formed(recorded(entries, path, issues)),
{
    if issues.len() > 0 {
        let entry = FileIssuesView { path, issues };
        let after = with_entry(entries, entry);
        if has_path(entries, path) {
            assert forall|i: int, j: int| 0 <= i < j < after.len() implies (#[trigger] after[i]).path
                != (#[trigger] after[j]).path by {
                assert(after[i].path == entries[i].path);
                assert(after[j].path == entries[j].path);
            }
        } else {
            assert forall|i: int, j: int| 0 <= i < j < after.len() implies (#[trigger] after[i]).path
                != (#[trigger] after[j]).path by {
                if j < entries.len() {
                    assert(after[i] == entries[i] && after[j] == entries[j]);
                } else {
                    assert(after[i] == entries[i]);
                }
            }
        }
    }
}

/// Of two files checked in order, where the first has no issues and the
/// second has some, the result holds the second alone, and the run fails.
pub proof fn lemma_only_file_with_issues_is_recorded(
    a: SourceFileView,
    b: SourceFileView,
    rules: Seq<Seq<char>>,
)
    requires
        file_issues(a, rules) matches Ok(issues) && issues.len() == 0,
        file_issues(b, rules) matches Ok(issues) && issues.len() > 0,
    ensures
        checked_files(seq![a, b], rules) == Ok::<Seq<FileIssuesView>, ReadErrorView>(
            seq![FileIssuesView { path: b.path, issues: file_issues(b, rules)->Ok_0 }],
        ),
        run_report(seq![a, b], rules).outcome == Err::<(), CheckErrorView>(
            CheckErrorView::IssuesFound,
        ),
{
    let files = seq![a, b];
    let none = Seq::<FileIssuesView>::empty();
    assert(files.drop_last() =~= seq![a]);
    assert(seq![a].drop_last() =~= Seq::<SourceFileView>::empty());
    assert(seq![a].last() == a);
    assert(checked_files(seq![a].drop_last(), rules) == Ok::<Seq<FileIssuesView>, ReadErrorView>(
        none,
    ));
    assert(recorded(none, a.path, file_issues(a, rules)->Ok_0) == none);
    assert(checked_files(seq![a], rules) == Ok::<Seq<FileIssuesView>, ReadErrorView>(none));
    assert(files.last() == b);
    let entry = FileIssuesView { path: b.path, issues: file_issues(b, rules)->Ok_0 };
    assert(!has_path(none, b.path));
    assert(none.push(entry) =~= seq![entry]);
}

/// Where no file of a run has issues, the result is empty, the run passes,
/// and nothing but the progress line is printed.
pub proof fn lemma_files_without_issues_pass(files: Seq<SourceFileView>, rules: Seq<Seq<char>>)
    requires
        forall|i: int|
            0 <= i < files.len() ==> (file_issues(#[trigger] files[i], rules) matches Ok(issues)
                && issues.len() == 0),
    ensures
        checked_files(files, rules) == Ok::<Seq<FileIssuesView>, ReadErrorView>(Seq::empty()),
        run_report(files, rules) == (CheckReportView {
            lines: seq![progress_line(files.len())],
            outcome: Ok(()),
        }),
    decreases files.len(),
{
    if files.len() > 0 {
        let before = files.drop_last();
        assert forall|i: int| 0 <= i < before.len() implies (file_issues(
            #[trigger] before[i],
            rules,
        ) matches Ok(issues) && issues.len() == 0) by {
            assert(before[i] == files[i]);
        }
        lemma_files_without_issues_pass(before, rules);
        assert(files.last() == files[files.len() - 1]);
    }
    assert(run_report(files, rules).lines =~= seq![progress_line(files.len())]);
}

/// Of two files checked in order, neither of which has issues, the result is
/// empty and the run passes.
pub proof fn lemma_two_files_without_issues_pass(
    a: SourceFileView,
    b: SourceFileView,
    rules: Seq<Seq<char>>,
)
    requires
        file_issues(a, rules) matches Ok(issues) && issues.len() == 0,
        file_issues(b, rules) matches Ok(issues) && issues.len() == 0,
    ensures
        checked_files(seq![a, b], rules) == Ok::<Seq<FileIssuesView>, ReadErrorView>(Seq::empty()),
        run_report(seq![a, b], rules).outcome == Ok::<(), CheckErrorView>(()),
{
    lemma_files_without_issues_pass(seq![a, b], rules);
}

/// Two runs over the same files under the same rules give the same report:
/// the same lines in the same order, and the same outcome.
pub proof fn lemma_run_is_repeatable(
    first: CheckReport,
    second: CheckReport,
    files: Seq<SourceFileView>,
    rules: Seq<Seq<char>>,
)
    requires
        first@ == run_report(files, rules),
        second@ == run_report(files, rules),
    ensures
        first@ == second@,
        first@.lines == second@.lines,
        first@.outcome == second@.outcome,
{
}

} // verus!
