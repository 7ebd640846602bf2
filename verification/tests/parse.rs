//! Tests for parsing, over the format's worked examples.

use gitcc::convco::ConvcoMessage;

const EX_1: &str = "feat: allow provided config object to extend other configs\n\nBREAKING CHANGE: `extends` key in config file is now used for extending other config files\n";
const EX_2: &str = "feat!: send an email to the customer when a product is shipped\n";
const EX_3: &str = "feat(api)!: send an email to the customer when a product is shipped\n";
const EX_4: &str =
    "chore!: drop support for Node 6\n\nBREAKING CHANGE: use JavaScript features not available in Node 6.\n";
const EX_5: &str = "docs: correct spelling of CHANGELOG\n";
const EX_6: &str = "fix: prevent racing of requests\n\nIntroduce a request id and a reference to latest request. Dismiss\nincoming responses other than from latest request.\n\nRemove timeouts which were used to mitigate the racing issue but are\nobsolete now.\n\nReviewed-by: Z\nRefs: #123\n";

#[test]
fn parse_ex_1() {
    let msg = ConvcoMessage::parse(EX_1).unwrap();
    assert_eq!(msg.typ, "feat");
    assert!(msg.scope.is_none());
    assert!(!msg.is_breaking);
    assert_eq!(
        msg.desc,
        "allow provided config object to extend other configs"
    );
    assert!(msg.footer.unwrap().contains_key("BREAKING CHANGE"));
}

#[test]
fn parse_ex_2() {
    let msg = ConvcoMessage::parse(EX_2).unwrap();
    assert_eq!(msg.typ, "feat");
    assert!(msg.scope.is_none());
    assert!(msg.is_breaking);
    assert_eq!(
        msg.desc,
        "send an email to the customer when a product is shipped"
    );
    assert!(msg.body.is_none());
    assert!(msg.footer.is_none());
}

#[test]
fn parse_ex_3() {
    let msg = ConvcoMessage::parse(EX_3).unwrap();
    assert_eq!(msg.typ, "feat");
    assert_eq!(msg.scope.unwrap(), "api");
    assert!(msg.is_breaking);
    assert_eq!(
        msg.desc,
        "send an email to the customer when a product is shipped"
    );
    assert!(msg.body.is_none());
    assert!(msg.footer.is_none());
}

#[test]
fn parse_ex_4() {
    let msg = ConvcoMessage::parse(EX_4).unwrap();
    assert_eq!(msg.typ, "chore");
    assert!(msg.scope.is_none());
    assert!(msg.is_breaking);
    assert_eq!(msg.desc, "drop support for Node 6");
    assert!(msg.body.is_none());
    assert!(msg.footer.unwrap().contains_key("BREAKING CHANGE"));
}

#[test]
fn parse_ex_5() {
    let msg = ConvcoMessage::parse(EX_5).unwrap();
    assert_eq!(msg.typ, "docs");
    assert!(msg.scope.is_none());
    assert!(!msg.is_breaking);
    assert_eq!(msg.desc, "correct spelling of CHANGELOG");
    assert!(msg.body.is_none());
    assert!(msg.footer.is_none());
}

#[test]
fn parse_ex_6() {
    let msg = ConvcoMessage::parse(EX_6).unwrap();
    assert_eq!(msg.typ, "fix");
    assert!(msg.scope.is_none());
    assert!(!msg.is_breaking);
    assert_eq!(msg.desc, "prevent racing of requests");
    assert_eq!(
        msg.body.unwrap(),
        "
Introduce a request id and a reference to latest request. Dismiss
incoming responses other than from latest request.

Remove timeouts which were used to mitigate the racing issue but are
obsolete now.
"
        .trim()
    );
    assert!(msg.footer.clone().unwrap().contains_key("Reviewed-by"));
    assert!(msg.footer.unwrap().contains_key("Refs"));
}

#[test]
fn parse_footer_order_and_values() {
    let msg = ConvcoMessage::parse(EX_6).unwrap();
    let footer = msg.footer.unwrap();
    let entries: Vec<(&String, &String)> = footer.iter().collect();
    assert_eq!(entries.len(), 2);
    assert_eq!(entries[0].0, "Reviewed-by");
    assert_eq!(entries[0].1, "Z");
    assert_eq!(entries[1].0, "Refs");
    assert_eq!(entries[1].1, "#123");
}

#[test]
fn parse_breaking_change_via_footer() {
    let msg = ConvcoMessage::parse(EX_1).unwrap();
    assert!(!msg.is_breaking);
    assert!(msg.is_breaking_change());
    let plain = ConvcoMessage::parse(EX_5).unwrap();
    assert!(!plain.is_breaking_change());
}

#[test]
fn parse_subject_only_message_is_valid() {
    let msg = ConvcoMessage::parse("fix: a one liner").unwrap();
    assert_eq!(msg.typ, "fix");
    assert!(msg.body.is_none());
    assert!(msg.footer.is_none());
}

#[test]
fn parse_key_value_without_blank_line_stays_body() {
    // the documented ambiguity: a `key: value` line not preceded by a blank
    // line remains ordinary body text
    let msg = ConvcoMessage::parse("fix: a\n\nsome body\nRefs: #1").unwrap();
    assert_eq!(msg.body.unwrap(), "some body\nRefs: #1");
    assert!(msg.footer.is_none());
}

#[test]
fn parse_footer_duplicate_key_updates_in_place() {
    let msg = ConvcoMessage::parse("fix: a\n\nRefs: #1\nSeen-by: X\nRefs: #2").unwrap();
    let footer = msg.footer.unwrap();
    let entries: Vec<(&String, &String)> = footer.iter().collect();
    assert_eq!(entries.len(), 2);
    assert_eq!(entries[0].0, "Refs");
    assert_eq!(entries[0].1, "#2");
    assert_eq!(entries[1].0, "Seen-by");
}
