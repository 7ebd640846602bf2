//! Tests for the hook scripts, the bump-command helpers, the changelog
//! assembly and the default configuration.

use gitcc::changelog::{build_changelog, ChangelogBuildOptions, ChangelogConfig};
use gitcc::config::{CommitConfig, Config};
use gitcc::history::{commit_history, Commit, GitCommit, Tag};
use gitcc::hooks::create_git_hooks_scripts;
use gitcc::release::{split_command, substitute_version};
use gitcc::version::{SemVer, VersionIncr};

#[test]
fn hook_scripts_exact_text() {
    let config = vec![(
        "pre-commit".to_string(),
        vec!["cargo fmt --check".to_string(), "cargo clippy".to_string()],
    )];
    let scripts = create_git_hooks_scripts(&config).unwrap();
    assert_eq!(scripts.len(), 1);
    assert_eq!(scripts[0].0, "pre-commit");
    assert_eq!(
        scripts[0].1,
        "#!/bin/sh\n\necho 'i Running pre-commit hook'\n\ncargo fmt --check\ncargo clippy\n"
    );
}

#[test]
fn hook_scripts_reject_unknown_hook() {
    let config = vec![("before-push".to_string(), vec![])];
    assert!(create_git_hooks_scripts(&config).is_err());
}

#[test]
fn bump_command_substitution() {
    assert_eq!(
        substitute_version("cargo set-version {{version}}", "0.2.0"),
        "cargo set-version 0.2.0"
    );
    assert_eq!(
        substitute_version("echo {{version}} {{version}}", "v1.0.0"),
        "echo v1.0.0 v1.0.0"
    );
    assert_eq!(substitute_version("no tag here", "1.0.0"), "no tag here");
}

#[test]
fn bump_command_split() {
    assert_eq!(
        split_command("cargo set-version 0.2.0"),
        vec!["cargo".to_string(), "set-version".to_string(), "0.2.0".to_string()]
    );
    assert_eq!(split_command("lone"), vec!["lone".to_string()]);
    assert_eq!(
        split_command("a  b"),
        vec!["a".to_string(), "".to_string(), "b".to_string()]
    );
}

#[test]
fn default_config_values() {
    let cfg = Config::default();
    let keys: Vec<&str> = cfg.commit.types.iter().map(|p| p.0.as_str()).collect();
    assert_eq!(
        keys,
        vec![
            "feat", "fix", "docs", "style", "refactor", "perf", "test", "build", "ci", "cd",
            "chore"
        ]
    );
    assert_eq!(cfg.version.types_incr_minor, vec!["feat".to_string()]);
    assert!(cfg.release.bump_cmds.is_empty());
    let labels: Vec<&str> = cfg.changelog.sections.iter().map(|p| p.0.as_str()).collect();
    assert_eq!(
        labels,
        vec![
            "New features",
            "Bug fixes",
            "Documentation",
            "Performance improvements",
            "Tooling"
        ]
    );
}

#[test]
fn commit_config_has_type() {
    let cfg = CommitConfig::default();
    assert!(cfg.has_type("feat"));
    assert!(!cfg.has_type("wip"));
}

#[test]
fn section_for_commit_type() {
    let cfg = ChangelogConfig::default();
    assert_eq!(cfg.find_section_for_commit_type("feat").unwrap(), "New features");
    assert_eq!(cfg.find_section_for_commit_type("ci").unwrap(), "Tooling");
    assert!(cfg.find_section_for_commit_type("chore").is_none());
}

#[test]
fn commit_short_id_and_subject() {
    let c = Commit {
        id: "0123456789abcdef".to_string(),
        timestamp: 0,
        author_name: "a".to_string(),
        author_email: "a@example.org".to_string(),
        committer_name: "a".to_string(),
        committer_email: "a@example.org".to_string(),
        raw_message: "feat: subject line\n\nbody".to_string(),
        conv_message: None,
        tag: None,
        version_tag: None,
    };
    assert_eq!(c.short_id(), "0123456");
    assert_eq!(c.subject(), "feat: subject line");
}

fn history_commit(id: &str, message: &str) -> GitCommit {
    GitCommit {
        id: id.to_string(),
        timestamp: 0,
        author_name: "a".to_string(),
        author_email: "a@example.org".to_string(),
        committer_name: "a".to_string(),
        committer_email: "a@example.org".to_string(),
        message: message.to_string(),
    }
}

#[test]
fn changelog_groups_and_sections() {
    let commits = vec![
        history_commit("feat000", "feat: add widget"),
        history_commit("chore00", "chore: tidy"),
        history_commit("rel0000", "fix: released fix"),
    ];
    let tags = vec![Tag {
        id: "t1".to_string(),
        timestamp: 11,
        name: "v0.1.0".to_string(),
        name_full: "refs/tags/v0.1.0".to_string(),
        message: Some("Release v0.1.0".to_string()),
        commit_id: "rel0000".to_string(),
    }];
    let cfg = Config::default();
    let history = commit_history(&commits, &tags, &cfg);
    let opts = ChangelogBuildOptions::default();
    let log = build_changelog("https://example.org/repo", &cfg, &history, &opts, 99);

    assert_eq!(log.releases.len(), 2);
    let unreleased = &log.releases[0];
    assert_eq!(unreleased.version, "Unreleased");
    assert_eq!(unreleased.date, 99);
    assert!(unreleased.url.is_none());
    // the chore commit is hidden by default: one section remains
    assert_eq!(unreleased.sections.len(), 1);
    assert_eq!(unreleased.sections[0].label, "New features");
    assert_eq!(
        unreleased.sections[0].items,
        vec![
            "feat: add widget [feat000](https://example.org/repo/commit/feat000)".to_string()
        ]
    );

    let released = &log.releases[1];
    assert_eq!(released.version, "v0.1.0");
    assert_eq!(released.date, 11);
    assert_eq!(
        released.url.as_deref().unwrap(),
        "https://example.org/repo/releases/tag/v0.1.0"
    );
    assert_eq!(released.sections.len(), 1);
    assert_eq!(released.sections[0].label, "Bug fixes");

    assert_eq!(log.latest_version(), None);

    // with every commit asked for, the hidden section appears
    let all_opts = ChangelogBuildOptions { origin_name: None, all: true };
    let log_all = build_changelog("https://example.org/repo", &cfg, &history, &all_opts, 99);
    assert_eq!(log_all.releases[0].sections.len(), 2);
    assert_eq!(log_all.releases[0].sections[1].label, "__Hidden__");
}

#[test]
fn changelog_uncategorized_for_non_conventional() {
    let commits = vec![history_commit("aaaaaaa", "just some text")];
    let cfg = Config::default();
    let history = commit_history(&commits, &vec![], &cfg);
    let opts = ChangelogBuildOptions::default();
    let log = build_changelog("https://example.org/r", &cfg, &history, &opts, 0);
    assert_eq!(log.releases.len(), 1);
    assert_eq!(log.releases[0].sections.len(), 1);
    assert_eq!(log.releases[0].sections[0].label, "Uncategorized");
    assert_eq!(
        log.releases[0].sections[0].items,
        vec!["just some text [aaaaaaa](https://example.org/r/commit/aaaaaaa)".to_string()]
    );
}

#[test]
fn changelog_latest_version_from_first_release() {
    let commits = vec![history_commit("rel0000", "fix: released fix")];
    let tags = vec![Tag {
        id: "t1".to_string(),
        timestamp: 0,
        name: "v0.2.0".to_string(),
        name_full: "refs/tags/v0.2.0".to_string(),
        message: Some("Release".to_string()),
        commit_id: "rel0000".to_string(),
    }];
    let cfg = Config::default();
    let history = commit_history(&commits, &tags, &cfg);
    let opts = ChangelogBuildOptions::default();
    let log = build_changelog("https://example.org/r", &cfg, &history, &opts, 0);
    assert_eq!(log.latest_version(), Some(SemVer::new(0, 2, 0)));
}

#[test]
fn version_rendering_extremes() {
    let v = SemVer::new(u64::MAX, 0, 7);
    assert_eq!(v.to_text(), "18446744073709551615.0.7");
}

#[test]
fn bump_saturates_at_the_largest_counter() {
    let v = Some(SemVer::new(1, 2, u64::MAX));
    assert_eq!(VersionIncr::Patch.apply(&v), SemVer::new(1, 2, u64::MAX));
}

#[test]
fn discover_repo_outside_any_repository() {
    assert!(gitcc::git::discover_repo("/").is_err());
    assert!(gitcc::git::get_root_dir("/").is_none());
}
