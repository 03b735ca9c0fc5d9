//! The init command: the text of a fresh configuration file and the steps
//! that lay out a new project. Carrying the steps out is the caller's work.

use crate::config::Config;
use crate::utils::paths::{join, joined};
use vstd::prelude::*;

verus! {

/// The configuration file written into a new project named `name`.
pub open spec fn default_config_text(name: Seq<char>) -> Seq<char> {
    "[project]\nname = \""@ + name
        + "\"\nversion = \"0.1.0\"\n\n[build]\ntarget_dir = \"target\"\nfeatures = []\n\n[check]\nrules = [\"default\"]\nignore_patterns = []\n"@
}

/// Writes the configuration file of a new project named `name`.
pub fn generate_default_config(name: &str) -> (text: String)
    ensures
        text@ == default_config_text(name@),
{
    let mut text = String::from_str("[project]\nname = \"");
    text.append(name);
    text.append(
        "\"\nversion = \"0.1.0\"\n\n[build]\ntarget_dir = \"target\"\nfeatures = []\n\n[check]\nrules = [\"default\"]\nignore_patterns = []\n",
    );
    text
}

/// Where the template named `template_name` is kept.
pub fn template_path(template_name: &str) -> (path: String)
    ensures
        path@ == joined("templates"@, template_name@),
{
    join("templates", template_name)
}

/// One step of laying out a project.
#[derive(Debug, Clone, PartialEq, Eq)]
pub enum Step {
    /// Create the directory and its missing parents.
    CreateDir { path: String },
    /// Write `content` to the file at `path`.
    WriteFile { path: String, content: String },
    /// Copy the text of the file at `from` to the file at `to`.
    CopyFile { from: String, to: String },
}

/// A step as a mathematical value.
pub ghost enum StepView {
    CreateDir { path: Seq<char> },
    WriteFile { path: Seq<char>, content: Seq<char> },
    CopyFile { from: Seq<char>, to: Seq<char> },
}

impl View for Step {
    type V = StepView;

    open spec fn view(&self) -> StepView {
        match self {
            Step::CreateDir { path } => StepView::CreateDir { path: path@ },
            Step::WriteFile { path, content } => StepView::WriteFile {
                path: path@,
                content: content@,
            },
            Step::CopyFile { from, to } => StepView::CopyFile { from: from@, to: to@ },
        }
    }
}

/// The views of a sequence of steps.
pub open spec fn step_views(steps: Seq<Step>) -> Seq<StepView> {
    Seq::new(steps.len(), |i: int| steps[i]@)
}

/// The steps that lay out a project named `name` at `path`: the project
/// directory, its configuration file, its source directory, and the main
/// source file copied from its template.
pub open spec fn init_steps(path: Seq<char>, name: Seq<char>) -> Seq<StepView> {
    seq![
        StepView::CreateDir { path },
        StepView::WriteFile {
            path: joined(path, "devtool.toml"@),
            content: default_config_text(name),
        },
        StepView::CreateDir { path: joined(path, "src"@) },
        StepView::CopyFile {
            from: "templates/main.rs.template"@,
            to: joined(joined(path, "src"@), "main.rs"@),
        },
    ]
}

/// Plans a new project at `path`, named as `config` says.
pub fn run(path: &str, config: &Config) -> (steps: Vec<Step>)
    ensures
        step_views(steps@) == init_steps(path@, config.name@),
{
    let src_dir = join(path, "src");
    let main_file = join(src_dir.as_str(), "main.rs");
    let mut steps: Vec<Step> = Vec::new();
    steps.push(Step::CreateDir { path: path.to_owned() });
    steps.push(
        Step::WriteFile {
            path: join(path, "devtool.toml"),
            content: generate_default_config(config.name.as_str()),
        },
    );
    steps.push(Step::CreateDir { path: src_dir });
    steps.push(
        Step::CopyFile { from: String::from_str("templates/main.rs.template"), to: main_file },
    );
    proof {
        assert(step_views(steps@) =~= init_steps(path@, config.name@));
    }
    steps
}

} // verus!
