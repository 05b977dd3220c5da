use lingui_icu::builder::{MessageBuilder, ValueWithPlaceholder};
use lingui_icu::descriptor::{assemble_descriptor, create_message_descriptor_from_tokens};
use lingui_icu::generate_id::generate_message_id;
use lingui_icu::tokens::{CaseOrOffset, ChoiceCase, Expression, IcuChoice, MsgToken, TagOpening};

fn text(s: &str) -> MsgToken<String> {
    MsgToken::String(s.to_string())
}

fn case(key: &str, tokens: Vec<MsgToken<String>>) -> CaseOrOffset<String> {
    CaseOrOffset::Case(ChoiceCase { key: key.to_string(), tokens })
}

fn placeholders(t: &Option<Vec<ValueWithPlaceholder<String>>>) -> Option<Vec<String>> {
    t.as_ref().map(|v| v.iter().map(|e| e.placeholder.clone()).collect())
}

#[test]
fn test_generate_message_id() {
    assert_eq!(generate_message_id("my message", ""), "vQhkQx")
}

#[test]
fn test_generate_message_id_with_context() {
    assert_eq!(generate_message_id("my message", "custom context"), "gGUeZH")
}

#[test]
fn id_depends_on_message_and_context() {
    let a = generate_message_id("my message", "");
    assert_eq!(a.len(), 6);
    assert_eq!(generate_message_id("my message", ""), a);
    assert_ne!(generate_message_id("my message!", ""), a);
}

#[test]
fn descriptor_of_plural_call() {
    let tokens = vec![MsgToken::IcuChoice(IcuChoice {
        value: Expression::Ident { name: "count".to_string(), value: "count".to_string() },
        format: "plural".to_string(),
        cases: vec![case("one", vec![text("# Book")]), case("other", vec![text("# Books")])],
    })];
    let d = create_message_descriptor_from_tokens(tokens, None, "", false);
    assert_eq!(d.id, "V/M0Vc");
    assert_eq!(d.message.as_deref(), Some("{count, plural, one {# Book} other {# Books}}"));
    assert_eq!(placeholders(&d.values), Some(vec!["count".to_string()]));
    assert!(d.components.is_none());
}

#[test]
fn descriptor_of_plural_element_with_component() {
    let tokens = vec![MsgToken::IcuChoice(IcuChoice {
        value: Expression::Ident { name: "count".to_string(), value: "count".to_string() },
        format: "plural".to_string(),
        cases: vec![
            CaseOrOffset::Offset("1".to_string()),
            case("=0", vec![text("Zero items")]),
            case(
                "other",
                vec![
                    MsgToken::TagOpening(TagOpening { self_closing: false, el: "<a href=\"/more\">".to_string() }),
                    text("A lot of them"),
                    MsgToken::TagClosing,
                ],
            ),
        ],
    })];
    let d = create_message_descriptor_from_tokens(tokens, None, "", false);
    assert_eq!(
        d.message.as_deref(),
        Some("{count, plural, offset:1 =0 {Zero items} other {<0>A lot of them</0>}}")
    );
    assert_eq!(d.id, "ZFknU1");
    assert_eq!(placeholders(&d.components), Some(vec!["0".to_string()]));
}

#[test]
fn explicit_id_is_kept_and_message_can_be_stripped() {
    let d = create_message_descriptor_from_tokens(vec![text("Hello")], Some("greeting".to_string()), "ctx", true);
    assert_eq!(d.id, "greeting");
    assert!(d.message.is_none());
    assert!(d.values.is_none());
}

#[test]
fn context_changes_the_derived_id() {
    let d = create_message_descriptor_from_tokens(vec![text("my message")], None, "custom context", false);
    assert_eq!(d.id, "gGUeZH");
    let d = create_message_descriptor_from_tokens(vec![text("my message")], None, "", false);
    assert_eq!(d.id, "vQhkQx");
}

#[test]
fn assembling_keeps_the_tables() {
    let parsed = MessageBuilder::parse(vec![
        text("Hi "),
        MsgToken::Expression(Expression::Other { value: "a.b".to_string() }),
    ]);
    let d = assemble_descriptor(parsed, "abc".to_string(), false);
    assert_eq!(d.id, "abc");
    assert_eq!(d.message.as_deref(), Some("Hi {0}"));
    assert_eq!(placeholders(&d.values), Some(vec!["0".to_string()]));
}
