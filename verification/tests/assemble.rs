//! Tests for assembling messages into their canonical text.

use gitcc::convco::{ConvcoMessage, BREAKING_CHANGE_KEY};
use indexmap::IndexMap;

const EX_1: &str = "feat: allow provided config object to extend other configs\n\nBREAKING CHANGE: `extends` key in config file is now used for extending other config files\n";
const EX_2: &str = "feat!: send an email to the customer when a product is shipped\n";
const EX_6: &str = "fix: prevent racing of requests\n\nIntroduce a request id and a reference to latest request. Dismiss\nincoming responses other than from latest request.\n\nRemove timeouts which were used to mitigate the racing issue but are\nobsolete now.\n\nReviewed-by: Z\nRefs: #123\n";

#[test]
fn assemble_ex_1() {
    let ex_1 = EX_1.strip_suffix('\n').unwrap_or(EX_1);

    let mut footer = IndexMap::new();
    footer.insert(
        BREAKING_CHANGE_KEY.to_string(),
        "`extends` key in config file is now used for extending other config files".to_string(),
    );
    let msg = ConvcoMessage {
        typ: "feat".to_string(),
        scope: None,
        is_breaking: false,
        desc: "allow provided config object to extend other configs".to_string(),
        body: None,
        footer: Some(footer),
    }
    .to_text();

    assert_eq!(msg, ex_1);
}

#[test]
fn assemble_ex_2() {
    let ex_2 = EX_2.strip_suffix('\n').unwrap_or(EX_2);

    let msg = ConvcoMessage {
        typ: "feat".to_string(),
        scope: None,
        is_breaking: true,
        desc: "send an email to the customer when a product is shipped".to_string(),
        body: None,
        footer: None,
    }
    .to_text();

    assert_eq!(msg, ex_2);
}

#[test]
fn assemble_ex_6() {
    let ex_6 = EX_6.strip_suffix('\n').unwrap_or(EX_6);

    let body = "
Introduce a request id and a reference to latest request. Dismiss
incoming responses other than from latest request.

Remove timeouts which were used to mitigate the racing issue but are
obsolete now.
"
    .trim();
    let mut footer = IndexMap::new();
    footer.insert("Reviewed-by".to_string(), "Z".to_string());
    footer.insert("Refs".to_string(), "#123".to_string());
    let msg = ConvcoMessage {
        typ: "fix".to_string(),
        scope: None,
        is_breaking: false,
        desc: "prevent racing of requests".to_string(),
        body: Some(body.to_string()),
        footer: Some(footer),
    }
    .to_text();

    assert_eq!(msg, ex_6);
}

#[test]
fn assemble_with_scope_and_marker() {
    let msg = ConvcoMessage {
        typ: "feat".to_string(),
        scope: Some("api".to_string()),
        is_breaking: true,
        desc: "send an email".to_string(),
        body: None,
        footer: None,
    }
    .to_text();
    assert_eq!(msg, "feat(api)!: send an email");
}

#[test]
fn round_trip_full_message() {
    let mut footer = IndexMap::new();
    footer.insert("Reviewed-by".to_string(), "Z".to_string());
    footer.insert("Refs".to_string(), "#123".to_string());
    let msg = ConvcoMessage {
        typ: "fix".to_string(),
        scope: Some("core".to_string()),
        is_breaking: true,
        desc: "prevent racing of requests".to_string(),
        body: Some("first paragraph\n\nsecond paragraph".to_string()),
        footer: Some(footer),
    };
    let text = msg.to_text();
    let back = ConvcoMessage::parse(&text).unwrap();
    assert_eq!(back.typ, msg.typ);
    assert_eq!(back.scope, msg.scope);
    assert_eq!(back.is_breaking, msg.is_breaking);
    assert_eq!(back.desc, msg.desc);
    assert_eq!(back.body, msg.body);
    assert_eq!(back.footer.unwrap(), msg.footer.unwrap());
}

#[test]
fn add_footer_note_creates_and_updates() {
    let mut msg = ConvcoMessage {
        typ: "fix".to_string(),
        scope: None,
        is_breaking: false,
        desc: "a".to_string(),
        body: None,
        footer: None,
    };
    msg.add_footer_note("Refs", "#1");
    msg.add_footer_note("Seen-by", "X");
    msg.add_footer_note("Refs", "#2");
    let footer = msg.footer.unwrap();
    let entries: Vec<(&String, &String)> = footer.iter().collect();
    assert_eq!(entries.len(), 2);
    assert_eq!(entries[0].0, "Refs");
    assert_eq!(entries[0].1, "#2");
    assert_eq!(entries[1].0, "Seen-by");
}

#[test]
fn add_breaking_change_sets_marker() {
    let mut msg = ConvcoMessage {
        typ: "feat".to_string(),
        scope: None,
        is_breaking: false,
        desc: "a".to_string(),
        body: None,
        footer: None,
    };
    msg.add_breaking_change("everything changed");
    assert!(msg.is_breaking);
    // without an existing footer, only the marker is set
    assert!(msg.footer.is_none());
    assert!(msg.is_breaking_change());

    let mut with_footer = ConvcoMessage {
        typ: "feat".to_string(),
        scope: None,
        is_breaking: false,
        desc: "a".to_string(),
        body: None,
        footer: Some(IndexMap::new()),
    };
    with_footer.add_breaking_change("everything changed");
    assert_eq!(
        with_footer.footer.unwrap().get(BREAKING_CHANGE_KEY).unwrap(),
        "everything changed"
    );
}
