//! Tests for the subject-line and footer-line matchers.

use gitcc::convco::{footer_captures, is_valid_footer_token, subject_captures};

#[test]
fn regex_footer_simple() {
    let s = "Refs: #123";
    let caps = footer_captures(s).unwrap();
    assert_eq!(caps.0, "Refs");
    assert_eq!(caps.1, "#123");
}

#[test]
fn regex_footer_breaking_change() {
    let s = "BREAKING CHANGE: This is a breaking change";
    let caps = footer_captures(s).unwrap();
    assert_eq!(caps.0, "BREAKING CHANGE");
    assert_eq!(caps.1, "This is a breaking change");
}

#[test]
fn regex_subject_simple() {
    let s = "feat: A new feature";
    let caps = subject_captures(s).unwrap();
    assert_eq!(caps.typ, "feat");
    assert!(caps.scope.is_none());
    assert!(caps.breaking.is_none());
    assert_eq!(caps.desc, "A new feature");
}

#[test]
fn regex_subject_excl() {
    let s = "feat!: A new feature";
    let caps = subject_captures(s).unwrap();
    assert_eq!(caps.typ, "feat");
    assert!(caps.scope.is_none());
    assert_eq!(caps.breaking.unwrap(), "!");
    assert_eq!(caps.desc, "A new feature");
}

#[test]
fn regex_subject_scope() {
    let s = "feat(abc): A new feature";
    let caps = subject_captures(s).unwrap();
    assert_eq!(caps.typ, "feat");
    assert_eq!(caps.scope.unwrap(), "(abc)");
    assert!(caps.breaking.is_none());
    assert_eq!(caps.desc, "A new feature");
}

#[test]
fn regex_subject_scope_excl() {
    let s = "feat(abc)!: A new feature";
    let caps = subject_captures(s).unwrap();
    assert_eq!(caps.typ, "feat");
    assert_eq!(caps.scope.unwrap(), "(abc)");
    assert_eq!(caps.breaking.unwrap(), "!");
    assert_eq!(caps.desc, "A new feature");
}

#[test]
fn subject_shape_rejects_missing_separator() {
    assert!(subject_captures("no separator").is_none());
    assert!(subject_captures("").is_none());
}

#[test]
fn footer_shape_rejects_plain_line() {
    assert!(footer_captures("no separator here").is_none());
}

#[test]
fn footer_token_validity() {
    assert!(is_valid_footer_token("Refs"));
    assert!(is_valid_footer_token("Reviewed-by"));
    assert!(is_valid_footer_token("BREAKING CHANGE"));
    assert!(!is_valid_footer_token("BAD KEY"));
    assert!(!is_valid_footer_token("with\ttab"));
    assert!(!is_valid_footer_token("BREAKING  CHANGE"));
}
