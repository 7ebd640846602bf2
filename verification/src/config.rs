//! Configuration of commits, versioning, changelog sections and releases,
//! with the default values the tool ships with.

use vstd::prelude::*;

use crate::changelog::{default_section_labels, ChangelogConfig};
use crate::chars::seq_views;

verus! {

/// The type tokens of a list of commit types (key and description pairs).
pub open spec fn type_keys(v: Seq<(String, String)>) -> Seq<Seq<char>> {
    v.map_values(|p: (String, String)| p.0@)
}

/// The whole configuration: commit types, versioning policy, changelog
/// sections and release commands.
#[derive(Debug)]
pub struct Config {
    /// Commit configuration.
    pub commit: CommitConfig,
    /// Versioning configuration.
    pub version: VersioningConfig,
    /// Changelog configuration.
    pub changelog: ChangelogConfig,
    /// Release configuration.
    pub release: ReleaseConfig,
}

impl Default for Config {
    /// The default configuration of every part.
    fn default() -> (r: Self)
        ensures
            type_keys(r.commit.types@) == default_type_keys(),
            seq_views(r.version.types_incr_minor@) == seq!["feat"@],
            r.changelog.sections@.map_values(|p: (String, Vec<String>)| p.0@)
                == default_section_labels(),
            r.release.bump_cmds@.len() == 0,
    {
        Config {
            commit: CommitConfig::default(),
            version: VersioningConfig::default(),
            changelog: ChangelogConfig::default(),
            release: ReleaseConfig::default(),
        }
    }
}

/// Commit configuration: the valid commit types, each with a description,
/// in a fixed order.
#[derive(Debug)]
pub struct CommitConfig {
    /// Valid commit types (key and description).
    pub types: Vec<(String, String)>,
}

/// The keys of the default commit types, in order.
pub open spec fn default_type_keys() -> Seq<Seq<char>> {
    seq![
        "feat"@,
        "fix"@,
        "docs"@,
        "style"@,
        "refactor"@,
        "perf"@,
        "test"@,
        "build"@,
        "ci"@,
        "cd"@,
        "chore"@,
    ]
}

impl CommitConfig {
    /// Whether a type token is among the configured commit types.
    pub fn has_type(&self, t: &str) -> (r: bool)
        ensures
            r == exists|i: int|
                0 <= i < self.types@.len() && (#[trigger] self.types@[i]).0@ == t@,
    {
        let ts = t.to_owned();
        let n = self.types.len();
        let mut i: usize = 0;
        while i < n
            invariant
                ts@ == t@,
                i <= n,
                n == self.types@.len(),
                forall|k: int| 0 <= k < i ==> (#[trigger] self.types@[k]).0@ != t@,
            decreases n - i,
        {
            if self.types[i].0 == ts {
                return true;
            }
            i = i + 1;
        }
        false
    }
}

impl Default for CommitConfig {
    /// The default commit types.
    fn default() -> (r: Self)
        ensures
            type_keys(r.types@) == default_type_keys(),
    {
        let mut types: Vec<(String, String)> = Vec::new();
        types.push(("feat".to_owned(), "New features".to_owned()));
        types.push(("fix".to_owned(), "Bug fixes".to_owned()));
        types.push(("docs".to_owned(), "Documentation".to_owned()));
        types.push(("style".to_owned(), "Code styling".to_owned()));
        types.push(("refactor".to_owned(), "Code refactoring".to_owned()));
        types.push(("perf".to_owned(), "Performance Improvements".to_owned()));
        types.push(("test".to_owned(), "Testing".to_owned()));
        types.push(("build".to_owned(), "Build system".to_owned()));
        types.push(("ci".to_owned(), "Continuous Integration".to_owned()));
        types.push(("cd".to_owned(), "Continuous Delivery".to_owned()));
        types.push(("chore".to_owned(), "Other changes".to_owned()));
        assert(type_keys(types@) =~= default_type_keys());
        CommitConfig { types }
    }
}

/// Versioning configuration: the commit types that increment the minor
/// version; every other conventional change increments the patch version.
#[derive(Debug)]
pub struct VersioningConfig {
    /// List of commit types which increment the minor version.
    pub types_incr_minor: Vec<String>,
}

impl Default for VersioningConfig {
    /// By default only `feat` commits increment the minor version.
    fn default() -> (r: Self)
        ensures
            seq_views(r.types_incr_minor@) == seq!["feat"@],
    {
        let mut types_incr_minor: Vec<String> = Vec::new();
        types_incr_minor.push("feat".to_owned());
        assert(seq_views(types_incr_minor@) =~= seq!["feat"@]);
        VersioningConfig { types_incr_minor }
    }
}

/// Release configuration: the commands run to bump package manifests to the
/// next version; the version is substituted for the `{{version}}` tag.
#[derive(Debug)]
pub struct ReleaseConfig {
    /// Bump commands.
    pub bump_cmds: Vec<String>,
}

impl Default for ReleaseConfig {
    /// By default no bump command is run.
    fn default() -> (r: Self)
        ensures
            r.bump_cmds@.len() == 0,
    {
        ReleaseConfig { bump_cmds: Vec::new() }
    }
}

/// The combined commits configuration of the authoring dialogue: the valid
/// commit types together with the types that increment the minor version.
#[derive(Debug)]
pub struct CommitsConfig {
    /// Commit types incrementing the minor part of the version.
    pub increment_minor: Vec<String>,
    /// Valid commit types (key and description).
    pub types: Vec<(String, String)>,
}

impl Default for CommitsConfig {
    /// The default commit types, with `feat` incrementing the minor version.
    fn default() -> (r: Self)
        ensures
            type_keys(r.types@) == default_type_keys(),
            seq_views(r.increment_minor@) == seq!["feat"@],
    {
        let commit = CommitConfig::default();
        let version = VersioningConfig::default();
        CommitsConfig { increment_minor: version.types_incr_minor, types: commit.types }
    }
}

} // verus!
