//! The build command: the arguments handed to the build tool and the places
//! where its output is expected. Running the tool is the caller's work.

use crate::config::Config;
use crate::text::texts;
use crate::utils::paths::{join, joined};
use vstd::prelude::*;

verus! {

/// The name of the build profile.
pub open spec fn profile_name(release: bool) -> Seq<char> {
    if release {
        "release"@
    } else {
        "debug"@
    }
}

/// `items` in a row, with `separator` between each two.
pub open spec fn joined_with(items: Seq<Seq<char>>, separator: Seq<char>) -> Seq<char>
    decreases items.len(),
{
    if items.len() == 0 {
        Seq::empty()
    } else if items.len() == 1 {
        items[0]
    } else {
        joined_with(items.drop_last(), separator) + separator + items.last()
    }
}

/// The arguments of the build tool: `build`, then `--release` for a release
/// build, then `--features` and the feature list unless that list is empty.
pub open spec fn build_arguments(release: bool, features: Seq<Seq<char>>) -> Seq<Seq<char>> {
    let list = joined_with(features, ","@);
    seq!["build"@] + (if release {
        seq!["--release"@]
    } else {
        Seq::empty()
    }) + (if list.len() > 0 {
        seq!["--features"@, list]
    } else {
        Seq::empty()
    })
}

/// The name of the build profile.
pub fn profile(release: bool) -> (name: &'static str)
    ensures
        name@ == profile_name(release),
{
    if release {
        "release"
    } else {
        "debug"
    }
}

/// The features, separated by commas.
pub fn join_features(features: &Vec<String>) -> (list: String)
    ensures
        list@ == joined_with(texts(features@), ","@),
{
    let ghost all = texts(features@);
    let mut list = String::new();
    let n: usize = features.len();
    let mut i: usize = 0;
    proof {
        assert(all.take(0) =~= Seq::<Seq<char>>::empty());
    }
    while i < n
        invariant
            all == texts(features@),
            n == features@.len(),
            i <= n,
            list@ == joined_with(all.take(i as int), ","@),
        decreases n - i,
    {
        proof {
            let upto = all.take(i + 1);
            assert(upto.drop_last() =~= all.take(i as int));
            assert(upto.last() == features@[i as int]@);
            if i == 0 {
                assert(upto[0] == features@[0]@);
                assert(Seq::<char>::empty() + features@[0]@ =~= features@[0]@);
            }
        }
        if i > 0 {
            list.append(",");
        }
        list.append(features[i].as_str());
        i += 1;
    }
    proof {
        assert(all.take(n as int) =~= all);
    }
    list
}

/// The arguments handed to the build tool.
pub fn build_args(release: bool, features: &Vec<String>) -> (args: Vec<String>)
    ensures
        texts(args@) == build_arguments(release, texts(features@)),
{
    let list = join_features(features);
    let mut args: Vec<String> = Vec::new();
    args.push(String::from_str("build"));
    if release {
        args.push(String::from_str("--release"));
    }
    if list.as_str().unicode_len() > 0 {
        args.push(String::from_str("--features"));
        args.push(list);
    }
    proof {
        assert(texts(args@) =~= build_arguments(release, texts(features@)));
    }
    args
}

/// The file name of the built program for a project named `name`.
pub fn artifact_name(name: &str) -> (file: String)
    ensures
        file@ == name@ + ".exe"@,
{
    let mut file = name.to_owned();
    file.append(".exe");
    file
}

/// The directory that receives the output of a build.
pub fn output_dir(config: &Config, release: bool) -> (dir: String)
    ensures
        dir@ == joined(config.build.target_dir@, profile_name(release)),
{
    join(config.build.target_dir.as_str(), profile(release))
}

/// The place of the built program: target directory, profile and project
/// name, with a `/` between each two.
pub fn get_artifact_path(config: &Config, release: bool) -> (path: String)
    ensures
        path@ == config.build.target_dir@ + "/"@ + profile_name(release) + "/"@ + config.name@,
{
    let mut path = config.build.target_dir.clone();
    path.append("/");
    path.append(profile(release));
    path.append("/");
    path.append(config.name.as_str());
    path
}

/// What one build needs: the directories to create, the tool's arguments and
/// the file to look for afterwards.
#[derive(Debug, Clone, PartialEq, Eq)]
pub struct BuildPlan {
    pub target_dir: String,
    pub output_dir: String,
    pub args: Vec<String>,
    pub artifact_name: String,
    pub artifact_path: String,
}

/// A build plan as a mathematical value.
pub ghost struct BuildPlanView {
    pub target_dir: Seq<char>,
    pub output_dir: Seq<char>,
    pub args: Seq<Seq<char>>,
    pub artifact_name: Seq<char>,
    pub artifact_path: Seq<char>,
}

impl View for BuildPlan {
    type V = BuildPlanView;

    open spec fn view(&self) -> BuildPlanView {
        BuildPlanView {
            target_dir: self.target_dir@,
            output_dir: self.output_dir@,
            args: texts(self.args@),
            artifact_name: self.artifact_name@,
            artifact_path: self.artifact_path@,
        }
    }
}

/// The plan of a build with the given profile under configuration values.
pub open spec fn build_plan(
    release: bool,
    name: Seq<char>,
    target_dir: Seq<char>,
    features: Seq<Seq<char>>,
) -> BuildPlanView {
    let output = joined(target_dir, profile_name(release));
    BuildPlanView {
        target_dir,
        output_dir: output,
        args: build_arguments(release, features),
        artifact_name: name + ".exe"@,
        artifact_path: joined(output, name + ".exe"@),
    }
}

/// Plans a build of the project that `config` describes.
pub fn run(release: bool, config: &Config) -> (plan: BuildPlan)
    ensures
        plan@ == build_plan(release, config.name@, config.build.target_dir@, config.feature_texts()),
{
    let output = output_dir(config, release);
    let file = artifact_name(config.name.as_str());
    let path = join(output.as_str(), file.as_str());
    BuildPlan {
        target_dir: config.build.target_dir.clone(),
        output_dir: output,
        args: build_args(release, &config.build.features),
        artifact_name: file,
        artifact_path: path,
    }
}

} // verus!
