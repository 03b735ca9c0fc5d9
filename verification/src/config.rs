//! The configuration record that the commands read.

use crate::text::{starts_with, texts};
use vstd::prelude::*;

verus! {

/// Options of the build command.
#[derive(Debug, Clone, PartialEq, Eq)]
pub struct BuildConfig {
    pub target_dir: String,
    pub features: Vec<String>,
}

/// Options of the check command.
#[derive(Debug, Clone, PartialEq, Eq)]
pub struct CheckConfig {
    pub rules: Vec<String>,
    pub ignore_patterns: Vec<String>,
}

/// The whole configuration of one invocation. Nothing in this crate changes
/// it once it is built.
#[derive(Debug, Clone, PartialEq, Eq)]
pub struct Config {
    pub name: String,
    pub version: String,
    pub build: BuildConfig,
    pub check: CheckConfig,
}

/// `at` is the position of the first of `items` that begins with `prefix`.
pub open spec fn first_with_prefix(items: Seq<Seq<char>>, prefix: Seq<char>, at: int) -> bool {
    &&& 0 <= at < items.len()
    &&& prefix.is_prefix_of(items[at])
    &&& forall|j: int| 0 <= j < at ==> !prefix.is_prefix_of(#[trigger] items[j])
}

/// Some item of `items` begins with `prefix`.
pub open spec fn any_with_prefix(items: Seq<Seq<char>>, prefix: Seq<char>) -> bool {
    exists|at: int| 0 <= at < items.len() && prefix.is_prefix_of(#[trigger] items[at])
}

impl Config {
    /// The configured build features, as texts.
    pub open spec fn feature_texts(&self) -> Seq<Seq<char>> {
        texts(self.build.features@)
    }

    /// The configured rule identifiers, as texts.
    pub open spec fn rule_texts(&self) -> Seq<Seq<char>> {
        texts(self.check.rules@)
    }

    /// The configured ignore patterns, as texts.
    pub open spec fn ignore_texts(&self) -> Seq<Seq<char>> {
        texts(self.check.ignore_patterns@)
    }

    /// The first build feature whose name begins with `name`, if there is one.
    pub fn find_feature(&self, name: &str) -> (found: Option<&str>)
        ensures
            found is Some <==> any_with_prefix(self.feature_texts(), name@),
            found matches Some(feature) ==> exists|at: int|
                first_with_prefix(self.feature_texts(), name@, at) && feature@
                    == self.feature_texts()[at],
    {
        let n: usize = self.build.features.len();
        let mut i: usize = 0;
        while i < n
            invariant
                n == self.build.features@.len(),
                i <= n,
                forall|j: int| 0 <= j < i ==> !name@.is_prefix_of(#[trigger] self.feature_texts()[j]),
            decreases n - i,
        {
            let feature = self.build.features[i].as_str();
            assert(feature@ == self.feature_texts()[i as int]);
            if starts_with(feature, name) {
                assert(first_with_prefix(self.feature_texts(), name@, i as int));
                return Some(feature);
            }
            i += 1;
        }
        None
    }

    /// The first build feature whose name begins with `name`.
    pub fn get_feature(&self, name: &str) -> (feature: &str)
        requires
            any_with_prefix(self.feature_texts(), name@),
        ensures
            exists|at: int|
                first_with_prefix(self.feature_texts(), name@, at) && feature@
                    == self.feature_texts()[at],
    {
        self.find_feature(name).unwrap()
    }

    /// The rule identifier at `index`.
    pub fn get_rule(&self, index: usize) -> (rule: &str)
        requires
            index < self.check.rules@.len(),
        ensures
            rule@ == self.rule_texts()[index as int],
    {
        self.check.rules[index].as_str()
    }
}

} // verus!
