//! A check run taken one file at a time: the run names the file whose text
//! it needs next, the caller reads it and hands the outcome back. Reading is
//! the caller's work; what happens to the outcome is decided here.

use crate::commands::check::{
    check_content, checked_files, file_issues, make_report, recorded, report_for, run_report,
    CheckReport, CheckReportView, CheckResult, FileIssuesView, ReadError, ReadErrorView,
    SourceFileView,
};
use crate::text::texts;
use vstd::prelude::*;

verus! {

/// The state of a run: the files to check and the rules, how many files have
/// been checked, what they gave, and the read error that ended the run, if
/// one did.
pub ghost struct CheckRunView {
    pub paths: Seq<Seq<char>>,
    pub rules: Seq<Seq<char>>,
    pub checked: nat,
    pub entries: Seq<FileIssuesView>,
    pub failure: Option<ReadErrorView>,
}

/// The outcome of reading a file, as a mathematical value.
pub open spec fn content_view(content: Result<String, String>) -> Result<Seq<char>, Seq<char>> {
    match content {
        Ok(text) => Ok(text@),
        Err(reason) => Err(reason@),
    }
}

/// A run that has checked nothing yet.
pub open spec fn started(paths: Seq<Seq<char>>, rules: Seq<Seq<char>>) -> CheckRunView {
    CheckRunView { paths, rules, checked: 0, entries: Seq::empty(), failure: None }
}

/// The run still needs the text of a file: no read error has ended it, and
/// not every file has been checked.
pub open spec fn awaits_file(state: CheckRunView) -> bool {
    state.failure is None && state.checked < state.paths.len()
}

/// The run after the outcome of reading its next file. A run that awaits no
/// file stays as it is.
pub open spec fn after_file(
    state: CheckRunView,
    content: Result<Seq<char>, Seq<char>>,
) -> CheckRunView {
    if !awaits_file(state) {
        state
    } else {
        let file = SourceFileView { path: state.paths[state.checked as int], content };
        match file_issues(file, state.rules) {
            Ok(issues) => CheckRunView {
                checked: state.checked + 1,
                entries: recorded(state.entries, file.path, issues),
                ..state
            },
            Err(error) => CheckRunView { failure: Some(error), ..state },
        }
    }
}

/// The run after the outcomes of reading several files, in order.
pub open spec fn after_files(
    state: CheckRunView,
    contents: Seq<Result<Seq<char>, Seq<char>>>,
) -> CheckRunView
    decreases contents.len(),
{
    if contents.len() == 0 {
        state
    } else {
        after_file(after_files(state, contents.drop_last()), contents.last())
    }
}

/// What the run has come to so far.
pub open spec fn outcome_of(state: CheckRunView) -> Result<Seq<FileIssuesView>, ReadErrorView> {
    match state.failure {
        Some(error) => Err(error),
        None => Ok(state.entries),
    }
}

/// The report of the run as it stands.
pub open spec fn report_of(state: CheckRunView) -> CheckReportView {
    report_for(state.paths.len(), outcome_of(state))
}

/// The first `contents.len()` of `paths`, each with the outcome of reading it.
pub open spec fn files_of(
    paths: Seq<Seq<char>>,
    contents: Seq<Result<Seq<char>, Seq<char>>>,
) -> Seq<SourceFileView> {
    Seq::new(contents.len(), |i: int| SourceFileView { path: paths[i], content: contents[i] })
}

/// A check run in progress.
#[derive(Debug, PartialEq, Eq)]
pub struct CheckRun {
    paths: Vec<String>,
    rules: Vec<String>,
    checked: usize,
    result: CheckResult,
    failure: Option<ReadError>,
}

impl View for CheckRun {
    type V = CheckRunView;

    closed spec fn view(&self) -> CheckRunView {
        CheckRunView {
            paths: texts(self.paths@),
            rules: texts(self.rules@),
            checked: self.checked as nat,
            entries: self.result@,
            failure: match self.failure {
                Some(error) => Some(error@),
                None => None,
            },
        }
    }
}

impl CheckRun {
    /// A run over the files at `paths` under `rules` that has checked
    /// nothing yet.
    pub fn new(paths: Vec<String>, rules: Vec<String>) -> (run: CheckRun)
        ensures
            run@ == started(texts(paths@), texts(rules@)),
    {
        CheckRun { paths, rules, checked: 0, result: CheckResult::new(), failure: None }
    }

    /// The path of the file whose text the run needs next. `None` when every
    /// file has been checked or a read error has ended the run.
    pub fn next_path(&self) -> (path: Option<&str>)
        ensures
            match path {
                Some(next) => awaits_file(self@) && next@ == self@.paths[self@.checked as int],
                None => !awaits_file(self@),
            },
    {
        if self.failure.is_none() && self.checked < self.paths.len() {
            Some(self.paths[self.checked].as_str())
        } else {
            None
        }
    }

    /// What the files checked so far have given. A read error that ends the
    /// run leaves it as it was.
    pub fn result(&self) -> (result: &CheckResult)
        ensures
            result@ == self@.entries,
    {
        &self.result
    }

    /// Takes in the outcome of reading the file that the run needs next: its
    /// text is checked and its issues are recorded, or the reason why it
    /// could not be read ends the run.
    pub fn supply(self, content: Result<String, String>) -> (run: CheckRun)
        ensures
            run@ == after_file(self@, content_view(content)),
    {
        if self.failure.is_some() || self.checked >= self.paths.len() {
            return self;
        }
        let CheckRun { paths, rules, checked, result, failure } = self;
        let path = paths[checked].clone();
        match content {
            Ok(text) => {
                let issues = check_content(text.as_str(), &rules);
                let result = result.record(path, issues);
                CheckRun { paths, rules, checked: checked + 1, result, failure }
            },
            Err(reason) => {
                let error = ReadError { path, reason };
                CheckRun { paths, rules, checked, result, failure: Some(error) }
            },
        }
    }

    /// The report of the run as it stands.
    pub fn finish(self) -> (report: CheckReport)
        ensures
            report@ == report_of(self@),
    {
        match self.failure {
            Some(error) => make_report(self.paths.len(), Err(error)),
            None => make_report(self.paths.len(), Ok(self.result)),
        }
    }
}

/// What a run has come to after the first `k` files is what checking those
/// files at once comes to; a run that a read error has ended has checked the
/// files before the unreadable one.
pub proof fn lemma_after_files(
    paths: Seq<Seq<char>>,
    rules: Seq<Seq<char>>,
    contents: Seq<Result<Seq<char>, Seq<char>>>,
)
    requires
        contents.len() <= paths.len(),
    ensures
        outcome_of(after_files(started(paths, rules), contents)) == checked_files(
            files_of(paths, contents),
            rules,
        ),
        after_files(started(paths, rules), contents).paths == paths,
        after_files(started(paths, rules), contents).rules == rules,
        after_files(started(paths, rules), contents).failure is None ==> after_files(
            started(paths, rules),
            contents,
        ).checked == contents.len(),
        after_files(started(paths, rules), contents).checked <= contents.len(),
    decreases contents.len(),
{
    if contents.len() > 0 {
        let before = contents.drop_last();
        lemma_after_files(paths, rules, before);
        assert(files_of(paths, contents).drop_last() =~= files_of(paths, before));
        assert(files_of(paths, contents).last() == SourceFileView {
            path: paths[contents.len() - 1],
            content: contents.last(),
        });
    } else {
        assert(files_of(paths, contents) =~= Seq::<SourceFileView>::empty());
    }
}

/// Taken file by file, a run gives the report that the run over all files
/// gives: when every file has been supplied, and already when a read error
/// has ended the run, whatever the files after it would have held.
pub proof fn lemma_run_file_by_file(
    paths: Seq<Seq<char>>,
    rules: Seq<Seq<char>>,
    contents: Seq<Result<Seq<char>, Seq<char>>>,
    k: int,
)
    requires
        contents.len() == paths.len(),
        0 <= k <= contents.len(),
        !awaits_file(after_files(started(paths, rules), contents.take(k))),
    ensures
        report_of(after_files(started(paths, rules), contents.take(k))) == run_report(
            files_of(paths, contents),
            rules,
        ),
{
    let supplied = contents.take(k);
    let state = after_files(started(paths, rules), supplied);
    lemma_after_files(paths, rules, supplied);
    let files = files_of(paths, contents);
    assert(files.take(k) =~= files_of(paths, supplied));
    if state.failure is Some {
        crate::commands::check::lemma_read_error_is_final(files, rules, k);
    } else {
        assert(k == contents.len());
        assert(files.take(k) =~= files);
    }
}

} // verus!
