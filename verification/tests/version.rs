//! Tests for classification, version bumps and the history resolver.

use gitcc::config::Config;
use gitcc::convco::ConvcoMessage;
use gitcc::history::{commit_history, latest_version, GitCommit, Tag};
use gitcc::version::{classify, tag_version, SemVer, VersionIncr};

fn commit(id: &str, message: &str) -> GitCommit {
    GitCommit {
        id: id.to_string(),
        timestamp: 0,
        author_name: "a".to_string(),
        author_email: "a@example.org".to_string(),
        committer_name: "a".to_string(),
        committer_email: "a@example.org".to_string(),
        message: message.to_string(),
    }
}

fn annotated_tag(name: &str, commit_id: &str) -> Tag {
    Tag {
        id: format!("tag-{name}"),
        timestamp: 0,
        name: name.to_string(),
        name_full: format!("refs/tags/{name}"),
        message: Some(format!("Release {name}")),
        commit_id: commit_id.to_string(),
    }
}

#[test]
fn classify_breaking_is_major() {
    let msg = ConvcoMessage::parse("fix!: break everything").unwrap();
    let minor = vec!["feat".to_string()];
    assert_eq!(classify(Some(&msg), &minor), VersionIncr::Major);
}

#[test]
fn classify_footer_breaking_is_major() {
    let msg = ConvcoMessage::parse("fix: a\n\nBREAKING CHANGE: b").unwrap();
    let minor = vec!["feat".to_string()];
    assert_eq!(classify(Some(&msg), &minor), VersionIncr::Major);
}

#[test]
fn classify_minor_type_is_minor() {
    let msg = ConvcoMessage::parse("feat: a").unwrap();
    let minor = vec!["feat".to_string()];
    assert_eq!(classify(Some(&msg), &minor), VersionIncr::Minor);
}

#[test]
fn classify_other_type_is_patch() {
    let msg = ConvcoMessage::parse("chore: a").unwrap();
    let minor = vec!["feat".to_string()];
    assert_eq!(classify(Some(&msg), &minor), VersionIncr::Patch);
}

#[test]
fn classify_unparseable_is_patch() {
    let minor = vec!["feat".to_string()];
    assert_eq!(classify(None, &minor), VersionIncr::Patch);
}

#[test]
fn classify_same_inputs_same_increment() {
    let msg = ConvcoMessage::parse("feat: a").unwrap();
    let minor = vec!["feat".to_string()];
    assert_eq!(classify(Some(&msg), &minor), classify(Some(&msg), &minor));
}

#[test]
fn apply_standard_rules() {
    let v = Some(SemVer::new(1, 2, 3));
    assert_eq!(VersionIncr::Major.apply(&v), SemVer::new(2, 0, 0));
    assert_eq!(VersionIncr::Minor.apply(&v), SemVer::new(1, 3, 0));
    assert_eq!(VersionIncr::Patch.apply(&v), SemVer::new(1, 2, 4));
    assert_eq!(VersionIncr::NoChange.apply(&v), SemVer::new(1, 2, 3));
}

#[test]
fn apply_pre_one_rules() {
    let v = Some(SemVer::new(0, 5, 2));
    assert_eq!(VersionIncr::Major.apply(&v), SemVer::new(0, 6, 0));
    assert_eq!(VersionIncr::Minor.apply(&v), SemVer::new(0, 6, 0));
    assert_eq!(VersionIncr::Patch.apply(&v), SemVer::new(0, 5, 3));
    assert_eq!(VersionIncr::NoChange.apply(&v), SemVer::new(0, 5, 2));
}

#[test]
fn apply_without_current_version() {
    assert_eq!(VersionIncr::Major.apply(&None), SemVer::new(0, 1, 0));
    assert_eq!(VersionIncr::NoChange.apply(&None), SemVer::new(0, 1, 0));
}

#[test]
fn version_rendering() {
    let v = SemVer::new(1, 20, 3);
    assert_eq!(v.to_text(), "1.20.3");
    assert_eq!(v.to_tag(), "v1.20.3");
    assert_eq!(SemVer::new(0, 0, 0).to_text(), "0.0.0");
}

#[test]
fn tag_version_reads_semver_names() {
    assert_eq!(tag_version("v1.2.3"), Some(SemVer::new(1, 2, 3)));
    assert_eq!(tag_version("1.2.3"), Some(SemVer::new(1, 2, 3)));
    assert_eq!(tag_version(" v0.5.0 "), Some(SemVer::new(0, 5, 0)));
    assert_eq!(tag_version("not-a-version"), None);
    assert_eq!(tag_version("v1.2"), None);
}

#[test]
fn history_pre_one_minor_bump() {
    // an annotated v0.5.0 release, then unreleased commits of types
    // fix, feat, chore, with feat incrementing the minor version
    let commits = vec![
        commit("c4", "chore: cleanup"),
        commit("c3", "feat: add feature"),
        commit("c2", "fix: fix bug"),
        commit("c1", "feat: released work"),
    ];
    let tags = vec![annotated_tag("v0.5.0", "c1")];
    let cfg = Config::default();
    let history = commit_history(&commits, &tags, &cfg);
    assert_eq!(history.curr_version, Some(SemVer::new(0, 5, 0)));
    assert_eq!(history.next_version, SemVer::new(0, 6, 0));
    assert_eq!(history.next_version_str(), "v0.6.0");
    assert!(history.commits[0].version_tag.is_none());
    assert!(history.commits[3].version_tag.is_some());
}

#[test]
fn history_stable_minor_bump() {
    // the same shape of history from a stable 2.x release
    let commits = vec![
        commit("c4", "chore: cleanup"),
        commit("c3", "feat: add feature"),
        commit("c2", "fix: fix bug"),
        commit("c1", "feat: released work"),
    ];
    let tags = vec![annotated_tag("v2.3.4", "c1")];
    let cfg = Config::default();
    let history = commit_history(&commits, &tags, &cfg);
    assert_eq!(history.curr_version, Some(SemVer::new(2, 3, 4)));
    assert_eq!(history.next_version, SemVer::new(2, 4, 0));
}

#[test]
fn history_without_tags_starts_at_first_release() {
    let commits = vec![commit("c1", "feat: first work")];
    let cfg = Config::default();
    let history = commit_history(&commits, &vec![], &cfg);
    assert_eq!(history.curr_version, None);
    assert_eq!(history.next_version, SemVer::new(0, 1, 0));
}

#[test]
fn history_unparseable_commit_counts_as_patch_with_warning() {
    let commits = vec![commit("c2", "not a conventional message"), commit("c1", "docs: d")];
    let cfg = Config::default();
    let history = commit_history(&commits, &vec![], &cfg);
    assert_eq!(history.next_version, SemVer::new(0, 1, 0));
    assert_eq!(history.warnings, vec!["c2".to_string()]);
    assert!(history.commits[0].conv_message.is_none());
}

#[test]
fn history_lightweight_tag_is_not_a_release() {
    let mut tag = annotated_tag("v0.9.0", "c1");
    tag.message = None;
    let commits = vec![commit("c1", "feat: a")];
    let cfg = Config::default();
    let history = commit_history(&commits, &vec![tag], &cfg);
    assert_eq!(history.curr_version, None);
    assert!(history.commits[0].tag.is_some());
    assert!(history.commits[0].version_tag.is_none());
}

#[test]
fn history_non_semver_tag_is_skipped() {
    let tag = annotated_tag("nightly", "c1");
    let commits = vec![commit("c1", "feat: a")];
    let cfg = Config::default();
    let history = commit_history(&commits, &vec![tag], &cfg);
    assert_eq!(history.curr_version, None);
}

#[test]
fn latest_version_is_global_maximum() {
    // tags created out of chronological order: the highest version wins,
    // not the one nearest to the head
    let tags = vec![
        annotated_tag("v0.5.0", "c3"),
        annotated_tag("v1.2.0", "c1"),
        annotated_tag("v0.9.0", "c2"),
    ];
    assert_eq!(latest_version(&tags), Some(SemVer::new(1, 2, 0)));
    assert_eq!(latest_version(&vec![]), None);
}
