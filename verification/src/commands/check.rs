//! The check command: rules over single lines, issues per file, the
//! aggregate over a list of files and its report.

use crate::config::Config;
use crate::text::{
    contains, decimal, decimal_string, has_substring, lines_of, same_text, slice_texts,
    split_lines, texts,
};
use vstd::prelude::*;

verus! {

/// The rules that the check knows.
#[derive(Debug, Clone, Copy, PartialEq, Eq, Structural)]
pub enum Rule {
    NoTodo,
    NoFixme,
}

impl Rule {
    /// The identifier by which a configuration names the rule.
    pub open spec fn id(self) -> Seq<char> {
        match self {
            Rule::NoTodo => "no-todo"@,
            Rule::NoFixme => "no-fixme"@,
        }
    }

    /// The text whose presence in a line makes the rule fire.
    pub open spec fn pattern(self) -> Seq<char> {
        match self {
            Rule::NoTodo => "TODO"@,
            Rule::NoFixme => "FIXME"@,
        }
    }

    /// The message of an issue that the rule raises.
    pub open spec fn message(self) -> Seq<char> {
        match self {
            Rule::NoTodo => "Found TODO comment"@,
            Rule::NoFixme => "Found FIXME comment"@,
        }
    }

    /// The rule that `id` names, if it names one.
    pub open spec fn named(id: Seq<char>) -> Option<Rule> {
        if id == Rule::NoTodo.id() {
            Some(Rule::NoTodo)
        } else if id == Rule::NoFixme.id() {
            Some(Rule::NoFixme)
        } else {
            None
        }
    }

    /// Reads a rule identifier. An identifier that names no rule gives `None`.
    pub fn parse(id: &str) -> (rule: Option<Rule>)
        ensures
            rule == Rule::named(id@),
    {
        if same_text(id, "no-todo") {
            Some(Rule::NoTodo)
        } else if same_text(id, "no-fixme") {
            Some(Rule::NoFixme)
        } else {
            None
        }
    }

    /// The text that the rule looks for.
    pub fn pattern_str(self) -> (pattern: &'static str)
        ensures
            pattern@ == self.pattern(),
    {
        match self {
            Rule::NoTodo => "TODO",
            Rule::NoFixme => "FIXME",
        }
    }

    /// The message that the rule reports.
    pub fn message_str(self) -> (message: &'static str)
        ensures
            message@ == self.message(),
    {
        match self {
            Rule::NoTodo => "Found TODO comment",
            Rule::NoFixme => "Found FIXME comment",
        }
    }

    /// Whether the rule fires on `line`.
    pub fn fires(self, line: &str) -> (fired: bool)
        ensures
            fired == has_substring(line@, self.pattern()),
    {
        contains(line, self.pattern_str())
    }
}

/// One reported violation: the rule that fired, the line it fired on, counted
/// from 1, and a description.
#[derive(Debug, Clone, PartialEq, Eq)]
pub struct Issue {
    pub rule: String,
    pub line: usize,
    pub message: String,
}

/// An issue as a mathematical value.
pub ghost struct IssueView {
    pub rule: Seq<char>,
    pub line: nat,
    pub message: Seq<char>,
}

impl View for Issue {
    type V = IssueView;

    open spec fn view(&self) -> IssueView {
        IssueView { rule: self.rule@, line: self.line as nat, message: self.message@ }
    }
}

/// The views of a sequence of issues.
pub open spec fn issue_views(issues: Seq<Issue>) -> Seq<IssueView> {
    Seq::new(issues.len(), |i: int| issues[i]@)
}

/// What the rule named `id` reports on `line`, which is line number `number`.
pub open spec fn rule_issue(id: Seq<char>, line: Seq<char>, number: nat) -> Option<IssueView> {
    match Rule::named(id) {
        Some(rule) => if has_substring(line, rule.pattern()) {
            Some(IssueView { rule: id, line: number, message: rule.message() })
        } else {
            None
        },
        None => None,
    }
}

/// The issues of one line under `rules`, in the order of the rules.
pub open spec fn line_issues(rules: Seq<Seq<char>>, line: Seq<char>, number: nat) -> Seq<IssueView>
    decreases rules.len(),
{
    if rules.len() == 0 {
        Seq::empty()
    } else {
        let before = line_issues(rules.drop_last(), line, number);
        match rule_issue(rules.last(), line, number) {
            Some(issue) => before.push(issue),
            None => before,
        }
    }
}

/// The issues of `lines`, numbered from 1: by line, then by rule.
pub open spec fn numbered_issues(rules: Seq<Seq<char>>, lines: Seq<Seq<char>>) -> Seq<IssueView>
    decreases lines.len(),
{
    if lines.len() == 0 {
        Seq::empty()
    } else {
        numbered_issues(rules, lines.drop_last()) + line_issues(
            rules,
            lines.last(),
            lines.len() as nat,
        )
    }
}

/// The issues of a file's text under `rules`.
pub open spec fn content_issues(rules: Seq<Seq<char>>, content: Seq<char>) -> Seq<IssueView> {
    numbered_issues(rules, lines_of(content))
}

/// Applies the rule named `rule` to one line. An identifier that names no
/// rule reports nothing.
pub fn apply_rule(rule: &str, line: &str, line_num: usize) -> (issue: Option<Issue>)
    ensures
        match issue {
            Some(found) => rule_issue(rule@, line@, line_num as nat) == Some(found@),
            None => rule_issue(rule@, line@, line_num as nat) is None,
        },
{
    match Rule::parse(rule) {
        Some(known) => {
            if known.fires(line) {
                Some(
                    Issue {
                        rule: rule.to_owned(),
                        line: line_num,
                        message: known.message_str().to_owned(),
                    },
                )
            } else {
                None
            }
        },
        None => None,
    }
}

/// Checks a file's text: every rule on every line, by line and then by rule.
pub fn check_content(content: &str, rules: &Vec<String>) -> (issues: Vec<Issue>)
    ensures
        issue_views(issues@) == content_issues(texts(rules@), content@),
{
    let lines = split_lines(content);
    let ghost all_lines = lines_of(content@);
    let ghost ids = texts(rules@);
    let mut issues: Vec<Issue> = Vec::new();
    let count: usize = lines.len();
    let rule_count: usize = rules.len();
    let mut i: usize = 0;
    proof {
        assert(slice_texts(lines@).len() == lines@.len());
        assert(all_lines.take(0) =~= Seq::<Seq<char>>::empty());
        assert(issue_views(issues@) =~= Seq::<IssueView>::empty());
    }
    while i < count
        invariant
            all_lines == lines_of(content@),
            all_lines == slice_texts(lines@),
            ids == texts(rules@),
            count == lines@.len(),
            rule_count == rules@.len(),
            i <= count,
            issue_views(issues@) == numbered_issues(ids, all_lines.take(i as int)),
        decreases count - i,
    {
        let line = lines[i];
        let ghost done = numbered_issues(ids, all_lines.take(i as int));
        let mut j: usize = 0;
        proof {
            assert(ids.take(0) =~= Seq::<Seq<char>>::empty());
            assert(done + Seq::<IssueView>::empty() =~= done);
        }
        while j < rule_count
            invariant
                ids == texts(rules@),
                rule_count == rules@.len(),
                i < count,
                count == lines@.len(),
                all_lines == slice_texts(lines@),
                line == lines@[i as int],
                j <= rule_count,
                issue_views(issues@) == done + line_issues(
                    ids.take(j as int),
                    line@,
                    (i + 1) as nat,
                ),
            decreases rule_count - j,
        {
            let ghost before = issue_views(issues@);
            let ghost sofar = line_issues(ids.take(j as int), line@, (i + 1) as nat);
            let found = apply_rule(rules[j].as_str(), line, i + 1);
            proof {
                let upto = ids.take(j + 1);
                assert(upto.drop_last() =~= ids.take(j as int));
                assert(upto.last() == rules@[j as int]@);
            }
            match found {
                Some(issue) => {
                    let ghost view = issue@;
                    issues.push(issue);
                    proof {
                        assert(issue_views(issues@) =~= before.push(view));
                        assert(before.push(view) =~= done + sofar.push(view));
                    }
                },
                None => {},
            }
            j += 1;
        }
        proof {
            let upto = all_lines.take(i + 1);
            assert(ids.take(rule_count as int) =~= ids);
            assert(upto.drop_last() =~= all_lines.take(i as int));
            assert(upto.last() == line@);
        }
        i += 1;
    }
    proof {
        assert(all_lines.take(count as int) =~= all_lines);
    }
    issues
}

/// A file handed to the check: its path, and its text or the reason why it
/// could not be read as text.
#[derive(Debug, PartialEq, Eq)]
pub struct SourceFile {
    pub path: String,
    pub content: Result<String, String>,
}

/// A source file as a mathematical value.
pub ghost struct SourceFileView {
    pub path: Seq<char>,
    pub content: Result<Seq<char>, Seq<char>>,
}

impl View for SourceFile {
    type V = SourceFileView;

    open spec fn view(&self) -> SourceFileView {
        SourceFileView {
            path: self.path@,
            content: match self.content {
                Ok(text) => Ok(text@),
                Err(reason) => Err(reason@),
            },
        }
    }
}

/// The views of a sequence of source files.
pub open spec fn source_views(files: Seq<SourceFile>) -> Seq<SourceFileView> {
    Seq::new(files.len(), |i: int| files[i]@)
}

/// A file could not be read as text.
#[derive(Debug, Clone, PartialEq, Eq)]
pub struct ReadError {
    pub path: String,
    pub reason: String,
}

/// A read error as a mathematical value.
pub ghost struct ReadErrorView {
    pub path: Seq<char>,
    pub reason: Seq<char>,
}

impl View for ReadError {
    type V = ReadErrorView;

    open spec fn view(&self) -> ReadErrorView {
        ReadErrorView { path: self.path@, reason: self.reason@ }
    }
}

/// The issues of one file.
#[derive(Debug, Clone, PartialEq, Eq)]
pub struct FileIssues {
    pub path: String,
    pub issues: Vec<Issue>,
}

/// The issues of one file as a mathematical value.
pub ghost struct FileIssuesView {
    pub path: Seq<char>,
    pub issues: Seq<IssueView>,
}

impl View for FileIssues {
    type V = FileIssuesView;

    open spec fn view(&self) -> FileIssuesView {
        FileIssuesView { path: self.path@, issues: issue_views(self.issues@) }
    }
}

/// The views of a sequence of per-file entries.
pub open spec fn file_views(entries: Seq<FileIssues>) -> Seq<FileIssuesView> {
    Seq::new(entries.len(), |i: int| entries[i]@)
}

/// No path has two entries, and no entry is without issues.
pub open spec fn well_formed(entries: Seq<FileIssuesView>) -> bool {
    &&& forall|i: int, j: int|
        0 <= i < j < entries.len() ==> (#[trigger] entries[i]).path != (#[trigger] entries[j]).path
    &&& forall|i: int| 0 <= i < entries.len() ==> (#[trigger] entries[i]).issues.len() > 0
}

/// Some entry is for `path`.
pub open spec fn has_path(entries: Seq<FileIssuesView>, path: Seq<char>) -> bool {
    exists|i: int| 0 <= i < entries.len() && (#[trigger] entries[i]).path == path
}

/// The position of an entry for `path`.
pub open spec fn path_index(entries: Seq<FileIssuesView>, path: Seq<char>) -> int {
    choose|i: int| 0 <= i < entries.len() && (#[trigger] entries[i]).path == path
}

/// `entries` with `entry` in the place of the entry for its path, or at the
/// end where the path had none.
pub open spec fn with_entry(entries: Seq<FileIssuesView>, entry: FileIssuesView) -> Seq<
    FileIssuesView,
> {
    if has_path(entries, entry.path) {
        entries.update(path_index(entries, entry.path), entry)
    } else {
        entries.push(entry)
    }
}

/// `entries` after a file has been checked: unchanged where the file has no
/// issues.
pub open spec fn recorded(
    entries: Seq<FileIssuesView>,
    path: Seq<char>,
    issues: Seq<IssueView>,
) -> Seq<FileIssuesView> {
    if issues.len() == 0 {
        entries
    } else {
        with_entry(entries, FileIssuesView { path, issues })
    }
}

/// The outcome of checking one file.
pub open spec fn file_issues(file: SourceFileView, rules: Seq<Seq<char>>) -> Result<
    Seq<IssueView>,
    ReadErrorView,
> {
    match file.content {
        Ok(text) => Ok(content_issues(rules, text)),
        Err(reason) => Err(ReadErrorView { path: file.path, reason }),
    }
}

/// The outcome of checking `files` in order: the entries of the files with
/// issues, or the error of the first file that could not be read.
pub open spec fn checked_files(files: Seq<SourceFileView>, rules: Seq<Seq<char>>) -> Result<
    Seq<FileIssuesView>,
    ReadErrorView,
>
    decreases files.len(),
{
    if files.len() == 0 {
        Ok(Seq::empty())
    } else {
        match checked_files(files.drop_last(), rules) {
            Err(error) => Err(error),
            Ok(entries) => match file_issues(files.last(), rules) {
                Err(error) => Err(error),
                Ok(issues) => Ok(recorded(entries, files.last().path, issues)),
            },
        }
    }
}

/// The aggregate of one check run: for each file with issues, in the order in
/// which the files were first recorded, its issues. A file without issues has
/// no entry.
#[derive(Debug, PartialEq, Eq)]
pub struct CheckResult {
    entries: Vec<FileIssues>,
}

impl View for CheckResult {
    type V = Seq<FileIssuesView>;

    closed spec fn view(&self) -> Seq<FileIssuesView> {
        file_views(self.entries@)
    }
}

impl CheckResult {
    #[verifier::type_invariant]
    closed spec fn inv(&self) -> bool {
        well_formed(file_views(self.entries@))
    }

    /// A result without entries.
    pub fn new() -> (result: CheckResult)
        ensures
            result@ == Seq::<FileIssuesView>::empty(),
    {
        let result = CheckResult { entries: Vec::new() };
        assert(result@ =~= Seq::<FileIssuesView>::empty());
        result
    }

    /// The entries, in order.
    pub fn entries(&self) -> (entries: &Vec<FileIssues>)
        ensures
            file_views(entries@) == self@,
            well_formed(self@),
    {
        proof {
            use_type_invariant(self);
        }
        &self.entries
    }

    /// The number of files with issues.
    pub fn len(&self) -> (count: usize)
        ensures
            count == self@.len(),
    {
        self.entries.len()
    }

    /// Whether no file has issues.
    pub fn is_empty(&self) -> (empty: bool)
        ensures
            empty == (self@.len() == 0),
    {
        self.entries.len() == 0
    }

    /// The issues recorded for `path`, if it has any.
    pub fn get(&self, path: &str) -> (found: Option<&Vec<Issue>>)
        ensures
            found is Some == has_path(self@, path@),
            found matches Some(issues) ==> issue_views(issues@) == self@[path_index(
                self@,
                path@,
            )].issues,
    {
        proof {
            use_type_invariant(self);
        }
        let n: usize = self.entries.len();
        let mut k: usize = 0;
        while k < n
            invariant
                well_formed(self@),
                n == self.entries@.len(),
                k <= n,
                forall|j: int| 0 <= j < k ==> (#[trigger] self@[j]).path != path@,
            decreases n - k,
        {
            if same_text(self.entries[k].path.as_str(), path) {
                proof {
                    lemma_path_index(self@, path@, k as int);
                }
                return Some(&self.entries[k].issues);
            }
            k += 1;
        }
        None
    }

    /// This result with the issues of the file at `path` recorded. Issues
    /// recorded earlier for the same path are replaced and keep their place;
    /// an empty list records nothing.
    pub fn record(self, path: String, issues: Vec<Issue>) -> (result: CheckResult)
        ensures
            result@ == recorded(self@, path@, issue_views(issues@)),
    {
        if issues.len() == 0 {
            return self;
        }
        proof {
            use_type_invariant(&self);
        }
        let ghost before = self@;
        let ghost entry = FileIssuesView { path: path@, issues: issue_views(issues@) };
        let mut entries = self.entries;
        let n: usize = entries.len();
        let mut k: usize = 0;
        while k < n
            invariant
                well_formed(before),
                before == self@,
                issues@.len() > 0,
                file_views(entries@) == before,
                entry == (FileIssuesView { path: path@, issues: issue_views(issues@) }),
                n == entries@.len(),
                k <= n,
                forall|j: int| 0 <= j < k ==> (#[trigger] before[j]).path != path@,
            decreases n - k,
        {
            if entries[k].path == path {
                proof {
                    lemma_path_index(before, path@, k as int);
                }
                entries.set(k, FileIssues { path, issues });
                assert(file_views(entries@) =~= before.update(k as int, entry));
                assert(well_formed(before.update(k as int, entry))) by {
                    let after = before.update(k as int, entry);
                    assert forall|i: int, j: int| 0 <= i < j < after.len() implies (
                    #[trigger] after[i]).path != (#[trigger] after[j]).path by {
                        assert(after[i].path == before[i].path);
                        assert(after[j].path == before[j].path);
                    }
                }
                return CheckResult { entries };
            }
            k += 1;
        }
        entries.push(FileIssues { path, issues });
        assert(file_views(entries@) =~= before.push(entry));
        CheckResult { entries }
    }
}

/// Among well-formed entries, the entry for a path is the only one for it.
pub proof fn lemma_path_index(entries: Seq<FileIssuesView>, path: Seq<char>, at: int)
    requires
        well_formed(entries),
        0 <= at < entries.len(),
        entries[at].path == path,
    ensures
        has_path(entries, path),
        path_index(entries, path) == at,
{
    let chosen = path_index(entries, path);
    assert(0 <= chosen < entries.len() && entries[chosen].path == path);
    if chosen < at {
        assert(entries[chosen].path != entries[at].path);
    } else if at < chosen {
        assert(entries[at].path != entries[chosen].path);
    }
}

/// Checks one file under `rules`.
pub fn check_file(file: &SourceFile, rules: &Vec<String>) -> (outcome: Result<Vec<Issue>, ReadError>)
    ensures
        match outcome {
            Ok(issues) => file_issues(file@, texts(rules@)) == Ok::<Seq<IssueView>, ReadErrorView>(
                issue_views(issues@),
            ),
            Err(error) => file_issues(file@, texts(rules@)) == Err::<Seq<IssueView>, ReadErrorView>(
                error@,
            ),
        },
{
    match &file.content {
        Ok(text) => Ok(check_content(text.as_str(), rules)),
        Err(reason) => Err(ReadError { path: file.path.clone(), reason: reason.clone() }),
    }
}

/// Checks `files` in order and gathers the issues per file. The first file
/// that could not be read ends the run with its error.
pub fn check_files(files: &Vec<SourceFile>, rules: &Vec<String>) -> (outcome: Result<
    CheckResult,
    ReadError,
>)
    ensures
        match outcome {
            Ok(result) => checked_files(source_views(files@), texts(rules@)) == Ok::<
                Seq<FileIssuesView>,
                ReadErrorView,
            >(result@),
            Err(error) => checked_files(source_views(files@), texts(rules@)) == Err::<
                Seq<FileIssuesView>,
                ReadErrorView,
            >(error@),
        },
{
    let ghost all = source_views(files@);
    let ghost ids = texts(rules@);
    let mut result = CheckResult::new();
    let n: usize = files.len();
    let mut i: usize = 0;
    proof {
        assert(all.take(0) =~= Seq::<SourceFileView>::empty());
    }
    while i < n
        invariant
            all == source_views(files@),
            ids == texts(rules@),
            n == files@.len(),
            i <= n,
            checked_files(all.take(i as int), ids) == Ok::<Seq<FileIssuesView>, ReadErrorView>(
                result@,
            ),
        decreases n - i,
    {
        proof {
            let upto = all.take(i + 1);
            assert(upto.drop_last() =~= all.take(i as int));
            assert(upto.last() == files@[i as int]@);
            lemma_read_error_is_final(all, ids, i + 1);
        }
        match check_file(&files[i], rules) {
            Ok(issues) => {
                result = result.record(files[i].path.clone(), issues);
            },
            Err(error) => {
                return Err(error);
            },
        }
        i += 1;
    }
    proof {
        assert(all.take(n as int) =~= all);
    }
    Ok(result)
}

/// Once a prefix of the files has ended in a read error, every longer list
/// ends in the same error.
pub proof fn lemma_read_error_is_final(files: Seq<SourceFileView>, rules: Seq<Seq<char>>, upto: int)
    requires
        0 <= upto <= files.len(),
    ensures
        checked_files(files.take(upto), rules) is Err ==> checked_files(files, rules)
            == checked_files(files.take(upto), rules),
    decreases files.len() - upto,
{
    if upto < files.len() {
        let longer = files.take(upto + 1);
        assert(longer.drop_last() =~= files.take(upto));
        lemma_read_error_is_final(files, rules, upto + 1);
    } else {
        assert(files.take(upto) =~= files);
    }
}

/// The report line of one issue.
pub open spec fn issue_line(issue: IssueView) -> Seq<char> {
    "  line "@ + decimal(issue.line) + ": ["@ + issue.rule + "] "@ + issue.message
}

/// The report line that stands above the issues of the file at `path`.
pub open spec fn header_line(path: Seq<char>) -> Seq<char> {
    path + ":"@
}

/// The report lines of the issues of one file, in their order.
pub open spec fn issue_lines(issues: Seq<IssueView>) -> Seq<Seq<char>> {
    Seq::new(issues.len(), |i: int| issue_line(issues[i]))
}

/// The report of a check result: for each entry in order its header line,
/// then one line for each of its issues.
pub open spec fn report_lines(entries: Seq<FileIssuesView>) -> Seq<Seq<char>>
    decreases entries.len(),
{
    if entries.len() == 0 {
        Seq::empty()
    } else {
        report_lines(entries.drop_last()) + seq![header_line(entries.last().path)] + issue_lines(
            entries.last().issues,
        )
    }
}

/// The line that announces how many files are about to be checked.
pub open spec fn progress_line(count: nat) -> Seq<char> {
    "Checking "@ + decimal(count) + " files"@
}

/// Writes the report line of `issue`.
pub fn format_issue(issue: &Issue) -> (line: String)
    ensures
        line@ == issue_line(issue@),
{
    let number = decimal_string(issue.line);
    let mut line = String::from_str("  line ");
    line.append(number.as_str());
    line.append(": [");
    line.append(issue.rule.as_str());
    line.append("] ");
    line.append(issue.message.as_str());
    line
}

/// Writes the report of `result`, line by line.
pub fn render_results(result: &CheckResult) -> (lines: Vec<String>)
    ensures
        texts(lines@) == report_lines(result@),
{
    let entries = result.entries();
    let ghost all = result@;
    let mut lines: Vec<String> = Vec::new();
    let n: usize = entries.len();
    let mut i: usize = 0;
    proof {
        assert(all.take(0) =~= Seq::<FileIssuesView>::empty());
        assert(texts(lines@) =~= Seq::<Seq<char>>::empty());
    }
    while i < n
        invariant
            all == file_views(entries@),
            n == entries@.len(),
            i <= n,
            texts(lines@) == report_lines(all.take(i as int)),
        decreases n - i,
    {
        let entry = &entries[i];
        let ghost done = texts(lines@);
        let mut header = entry.path.clone();
        header.append(":");
        lines.push(header);
        let ghost headed = done + seq![header_line(entry.path@)];
        let count: usize = entry.issues.len();
        let mut j: usize = 0;
        proof {
            assert(texts(lines@) =~= headed + issue_lines(entry@.issues).take(0));
        }
        while j < count
            invariant
                count == entry.issues@.len(),
                j <= count,
                texts(lines@) == headed + issue_lines(entry@.issues).take(j as int),
            decreases count - j,
        {
            let ghost sofar = texts(lines@);
            let line = format_issue(&entry.issues[j]);
            let ghost text = line@;
            lines.push(line);
            proof {
                assert(text == issue_lines(entry@.issues)[j as int]);
                assert(texts(lines@) =~= sofar.push(text));
                assert(sofar.push(text) =~= headed + issue_lines(entry@.issues).take(j + 1));
            }
            j += 1;
        }
        proof {
            let upto = all.take(i + 1);
            assert(upto.drop_last() =~= all.take(i as int));
            assert(upto.last() == entry@);
            assert(issue_lines(entry@.issues).take(count as int) =~= issue_lines(entry@.issues));
        }
        i += 1;
    }
    proof {
        assert(all.take(n as int) =~= all);
    }
    lines
}

/// Why a check run did not pass.
#[derive(Debug, PartialEq, Eq)]
pub enum CheckError {
    /// A file could not be read as text; the run ended there.
    Read(ReadError),
    /// Every file was checked, and at least one issue was found.
    IssuesFound,
}

/// A check error as a mathematical value.
pub ghost enum CheckErrorView {
    Read(ReadErrorView),
    IssuesFound,
}

impl View for CheckError {
    type V = CheckErrorView;

    open spec fn view(&self) -> CheckErrorView {
        match self {
            CheckError::Read(error) => CheckErrorView::Read(error@),
            CheckError::IssuesFound => CheckErrorView::IssuesFound,
        }
    }
}

/// The text that describes `error`.
pub open spec fn error_message(error: CheckErrorView) -> Seq<char> {
    match error {
        CheckErrorView::Read(read) => "cannot read "@ + read.path + ": "@ + read.reason,
        CheckErrorView::IssuesFound => "Check failed with issues"@,
    }
}

impl CheckError {
    /// A description of the error; a read error names its file.
    pub fn message(&self) -> (text: String)
        ensures
            text@ == error_message(self@),
    {
        match self {
            CheckError::Read(read) => {
                let mut text = String::from_str("cannot read ");
                text.append(read.path.as_str());
                text.append(": ");
                text.append(read.reason.as_str());
                text
            },
            CheckError::IssuesFound => String::from_str("Check failed with issues"),
        }
    }
}

/// What a check run hands back: the lines to print, in order, and whether
/// the run passed.
#[derive(Debug, PartialEq, Eq)]
pub struct CheckReport {
    pub lines: Vec<String>,
    pub outcome: Result<(), CheckError>,
}

/// A check report as a mathematical value.
pub ghost struct CheckReportView {
    pub lines: Seq<Seq<char>>,
    pub outcome: Result<(), CheckErrorView>,
}

impl View for CheckReport {
    type V = CheckReportView;

    open spec fn view(&self) -> CheckReportView {
        CheckReportView {
            lines: texts(self.lines@),
            outcome: match self.outcome {
                Ok(_) => Ok(()),
                Err(error) => Err(error@),
            },
        }
    }
}

/// The report of a run that was to check `total` files and ended in
/// `checked`. The progress line comes first. A read error ends the run with
/// nothing more printed. Otherwise the report of the result follows, and the
/// run passes exactly if the result has no entry.
pub open spec fn report_for(
    total: nat,
    checked: Result<Seq<FileIssuesView>, ReadErrorView>,
) -> CheckReportView {
    match checked {
        Err(error) => CheckReportView {
            lines: seq![progress_line(total)],
            outcome: Err(CheckErrorView::Read(error)),
        },
        Ok(entries) => CheckReportView {
            lines: seq![progress_line(total)] + report_lines(entries),
            outcome: if entries.len() == 0 {
                Ok(())
            } else {
                Err(CheckErrorView::IssuesFound)
            },
        },
    }
}

/// The report of a run over `files` under `rules`.
pub open spec fn run_report(files: Seq<SourceFileView>, rules: Seq<Seq<char>>) -> CheckReportView {
    report_for(files.len(), checked_files(files, rules))
}

/// Writes the report of a run that was to check `total` files and ended in
/// `checked`.
pub fn make_report(total: usize, checked: Result<CheckResult, ReadError>) -> (report: CheckReport)
    ensures
        report@ == report_for(
            total as nat,
            match checked {
                Ok(result) => Ok(result@),
                Err(error) => Err(error@),
            },
        ),
{
    let count = decimal_string(total);
    let mut progress = String::from_str("Checking ");
    progress.append(count.as_str());
    progress.append(" files");
    let ghost first = progress@;
    let mut lines: Vec<String> = Vec::new();
    lines.push(progress);
    proof {
        assert(texts(lines@) =~= seq![first]);
    }
    match checked {
        Err(error) => CheckReport { lines, outcome: Err(CheckError::Read(error)) },
        Ok(result) => {
            let mut rendered = render_results(&result);
            let ghost body = texts(rendered@);
            lines.append(&mut rendered);
            proof {
                assert(texts(lines@) =~= seq![first] + body);
            }
            let outcome = if result.is_empty() {
                Ok(())
            } else {
                Err(CheckError::IssuesFound)
            };
            CheckReport { lines, outcome }
        },
    }
}

/// Runs the check over `files`, in the order given, under the rules of
/// `config`.
pub fn run(files: &Vec<SourceFile>, config: &Config) -> (report: CheckReport)
    ensures
        report@ == run_report(source_views(files@), config.rule_texts()),
{
    proof {
        assert(source_views(files@).len() == files@.len());
    }
    make_report(files.len(), check_files(files, &config.check.rules))
}

/// The paths of `paths` that contain none of `patterns`, in their order.
pub open spec fn unignored(paths: Seq<Seq<char>>, patterns: Seq<Seq<char>>) -> Seq<Seq<char>>
    decreases paths.len(),
{
    if paths.len() == 0 {
        Seq::empty()
    } else {
        let before = unignored(paths.drop_last(), patterns);
        if ignored(paths.last(), patterns) {
            before
        } else {
            before.push(paths.last())
        }
    }
}

/// Leaves out the paths that an ignore pattern excludes from checking.
pub fn select_files(paths: &Vec<String>, patterns: &Vec<String>) -> (kept: Vec<String>)
    ensures
        texts(kept@) == unignored(texts(paths@), texts(patterns@)),
{
    let ghost all = texts(paths@);
    let mut kept: Vec<String> = Vec::new();
    let n: usize = paths.len();
    let mut i: usize = 0;
    proof {
        assert(all.take(0) =~= Seq::<Seq<char>>::empty());
        assert(texts(kept@) =~= Seq::<Seq<char>>::empty());
    }
    while i < n
        invariant
            all == texts(paths@),
            n == paths@.len(),
            i <= n,
            texts(kept@) == unignored(all.take(i as int), texts(patterns@)),
        decreases n - i,
    {
        let ghost before = texts(kept@);
        proof {
            let upto = all.take(i + 1);
            assert(upto.drop_last() =~= all.take(i as int));
            assert(upto.last() == paths@[i as int]@);
        }
        if !should_ignore(paths[i].as_str(), patterns) {
            kept.push(paths[i].clone());
            proof {
                assert(texts(kept@) =~= before.push(paths@[i as int]@));
            }
        }
        i += 1;
    }
    proof {
        assert(all.take(n as int) =~= all);
    }
    kept
}

/// The ignore patterns of `config`.
pub fn load_ignore_patterns(config: &Config) -> (patterns: Vec<String>)
    ensures
        texts(patterns@) == config.ignore_texts(),
{
    let source = &config.check.ignore_patterns;
    let mut patterns: Vec<String> = Vec::new();
    let n: usize = source.len();
    let mut i: usize = 0;
    while i < n
        invariant
            source == &config.check.ignore_patterns,
            n == source@.len(),
            i <= n,
            texts(patterns@) == texts(source@).take(i as int),
        decreases n - i,
    {
        let ghost before = texts(patterns@);
        patterns.push(source[i].clone());
        proof {
            assert(texts(patterns@) =~= before.push(source@[i as int]@));
            assert(before.push(source@[i as int]@) =~= texts(source@).take(i + 1));
        }
        i += 1;
    }
    proof {
        assert(texts(source@).take(n as int) =~= texts(source@));
    }
    patterns
}

/// Some pattern of `patterns` is part of `path`.
pub open spec fn ignored(path: Seq<char>, patterns: Seq<Seq<char>>) -> bool {
    exists|i: int| 0 <= i < patterns.len() && has_substring(path, #[trigger] patterns[i])
}

/// Whether `path` contains one of `patterns` and is therefore left unchecked.
pub fn should_ignore(path: &str, patterns: &Vec<String>) -> (skip: bool)
    ensures
        skip == ignored(path@, texts(patterns@)),
{
    let n: usize = patterns.len();
    let mut i: usize = 0;
    while i < n
        invariant
            n == patterns@.len(),
            i <= n,
            forall|j: int| 0 <= j < i ==> !has_substring(path@, #[trigger] texts(patterns@)[j]),
        decreases n - i,
    {
        if contains(path, patterns[i].as_str()) {
            assert(has_substring(path@, texts(patterns@)[i as int]));
            return true;
        }
        i += 1;
    }
    false
}

} // verus!
