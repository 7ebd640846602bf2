//! Tests for each structured parse error and the authoring-time validation.

use gitcc::config::CommitsConfig;
use gitcc::convco::ConvcoMessage;
use gitcc::error::{ConvcoError, Error};

#[test]
fn error_missing_separator() {
    assert_eq!(
        ConvcoMessage::parse("no separator here").unwrap_err(),
        ConvcoError::MissingSeparator
    );
    assert_eq!(ConvcoMessage::parse("").unwrap_err(), ConvcoError::MissingSeparator);
}

#[test]
fn error_missing_type() {
    assert_eq!(ConvcoMessage::parse("?: x").unwrap_err(), ConvcoError::MissingType);
    assert_eq!(ConvcoMessage::parse("Feat: x").unwrap_err(), ConvcoError::MissingType);
}

#[test]
fn error_invalid_scope() {
    assert_eq!(ConvcoMessage::parse("feat(): x").unwrap_err(), ConvcoError::InvalidScope);
    assert_eq!(ConvcoMessage::parse("feat(API): x").unwrap_err(), ConvcoError::InvalidScope);
    assert_eq!(ConvcoMessage::parse("feat(api: x").unwrap_err(), ConvcoError::InvalidScope);
}

#[test]
fn error_invalid_description() {
    assert_eq!(ConvcoMessage::parse("feat: ").unwrap_err(), ConvcoError::InvalidDescription);
    assert_eq!(
        ConvcoMessage::parse("feat: Uppercase start").unwrap_err(),
        ConvcoError::InvalidDescription
    );
}

#[test]
fn error_missing_body_separator() {
    assert_eq!(
        ConvcoMessage::parse("feat: a\nbody right away").unwrap_err(),
        ConvcoError::MissingBodySeparator
    );
}

#[test]
fn error_invalid_footer_line() {
    assert_eq!(
        ConvcoMessage::parse("feat: a\n\nRefs: #1\nnot a pair").unwrap_err(),
        ConvcoError::InvalidFooterLine
    );
    assert_eq!(
        ConvcoMessage::parse("feat: a\n\nRefs: #1\nbad key: v").unwrap_err(),
        ConvcoError::InvalidFooterLine
    );
}

#[test]
fn validate_accepts_configured_type() {
    let cfg = CommitsConfig::default();
    let msg = ConvcoMessage::parse("feat: a").unwrap();
    assert_eq!(msg.validate(&cfg), Ok(()));
}

#[test]
fn validate_rejects_unknown_type() {
    let cfg = CommitsConfig::default();
    let msg = ConvcoMessage::parse("wip: a").unwrap();
    assert_eq!(msg.validate(&cfg), Err(ConvcoError::MissingType));
}

#[test]
fn validate_rejects_duplicate_breaking_change() {
    let cfg = CommitsConfig::default();
    let mut msg = ConvcoMessage::parse("feat: a").unwrap();
    msg.add_footer_note("BREAKING CHANGE", "one");
    msg.add_footer_note("BREAKING-CHANGE", "two");
    assert_eq!(msg.validate(&cfg), Err(ConvcoError::DuplicateBreakingChange));
}

#[test]
fn validate_rejects_bad_issue_reference() {
    let cfg = CommitsConfig::default();
    let mut msg = ConvcoMessage::parse("feat: a").unwrap();
    msg.add_footer_note("Closes", "issue 12");
    assert_eq!(msg.validate(&cfg), Err(ConvcoError::InvalidIssueReference));
}

#[test]
fn validate_accepts_good_issue_reference() {
    let cfg = CommitsConfig::default();
    let mut msg = ConvcoMessage::parse("feat: a").unwrap();
    msg.add_footer_note("Closes", "#123");
    assert_eq!(msg.validate(&cfg), Ok(()));
}

#[test]
fn error_message_text() {
    let e = Error::msg("something went wrong");
    assert_eq!(e.message(), "something went wrong");
}
