use lingui_icu::builder::{MessageBuilder, MessageBuilderResult, ValueWithPlaceholder};
use lingui_icu::tokens::{CaseOrOffset, ChoiceCase, Expression, IcuChoice, MsgToken, TagOpening};

fn text(s: &str) -> MsgToken<String> {
    MsgToken::String(s.to_string())
}

fn ident(name: &str) -> Expression<String> {
    Expression::Ident { name: name.to_string(), value: name.to_string() }
}

fn other(source: &str) -> Expression<String> {
    Expression::Other { value: source.to_string() }
}

fn open(el: &str) -> MsgToken<String> {
    MsgToken::TagOpening(TagOpening { self_closing: false, el: el.to_string() })
}

fn open_self_closing(el: &str) -> MsgToken<String> {
    MsgToken::TagOpening(TagOpening { self_closing: true, el: el.to_string() })
}

fn case(key: &str, tokens: Vec<MsgToken<String>>) -> CaseOrOffset<String> {
    CaseOrOffset::Case(ChoiceCase { key: key.to_string(), tokens })
}

fn choice(value: Expression<String>, format: &str, cases: Vec<CaseOrOffset<String>>) -> MsgToken<String> {
    MsgToken::IcuChoice(IcuChoice { value, format: format.to_string(), cases })
}

fn table(t: &Option<Vec<ValueWithPlaceholder<String>>>) -> Option<Vec<(String, String)>> {
    t.as_ref().map(|v| v.iter().map(|e| (e.placeholder.clone(), e.value.clone())).collect())
}

fn pairs(items: &[(&str, &str)]) -> Option<Vec<(String, String)>> {
    Some(items.iter().map(|(p, v)| (p.to_string(), v.to_string())).collect())
}

fn summary(r: &MessageBuilderResult<String>) -> (String, Option<Vec<(String, String)>>, Option<Vec<(String, String)>>) {
    (r.message_str.clone(), table(&r.values), table(&r.components))
}

#[test]
fn repeated_identifier_is_one_value() {
    let r = MessageBuilder::parse(vec![
        text("Refresh "),
        MsgToken::Expression(ident("foo")),
        text(" inbox "),
        MsgToken::Expression(ident("foo")),
    ]);
    assert_eq!(r.message_str, "Refresh {foo} inbox {foo}");
    assert_eq!(table(&r.values), pairs(&[("foo", "foo")]));
    assert!(r.components.is_none());
}

#[test]
fn complex_expressions_are_numbered_in_order() {
    let r = MessageBuilder::parse(vec![
        MsgToken::Expression(other("user.name")),
        MsgToken::Expression(other("getCount()")),
    ]);
    assert_eq!(r.message_str, "{0}{1}");
    assert_eq!(table(&r.values), pairs(&[("0", "user.name"), ("1", "getCount()")]));
}

#[test]
fn labels_take_a_slot_but_not_a_number_name() {
    let r = MessageBuilder::parse(vec![
        MsgToken::Expression(Expression::Labeled { name: "who".to_string(), value: "user.name".to_string() }),
        text(" and "),
        MsgToken::Expression(other("a.b")),
        text(" and "),
        MsgToken::Expression(Expression::Shorthand { name: "count".to_string(), value: "count".to_string() }),
        text(" and "),
        MsgToken::Expression(ident("name")),
    ]);
    assert_eq!(r.message_str, "{who} and {1} and {count} and {name}");
    assert_eq!(
        table(&r.values),
        pairs(&[("name", "name"), ("who", "user.name"), ("1", "a.b"), ("count", "count")])
    );
}

#[test]
fn named_values_come_first_and_first_entry_wins() {
    let r = MessageBuilder::parse(vec![
        MsgToken::Expression(Expression::Labeled { name: "x".to_string(), value: "first".to_string() }),
        MsgToken::Expression(Expression::Ident { name: "x".to_string(), value: "second".to_string() }),
    ]);
    assert_eq!(r.message_str, "{x}{x}");
    assert_eq!(table(&r.values), pairs(&[("x", "second")]));
}

#[test]
fn empty_stream_has_no_tables() {
    let r = MessageBuilder::<String>::parse(vec![]);
    assert_eq!(summary(&r), (String::new(), None, None));
}

#[test]
fn tags_are_numbered_in_opening_order() {
    let r = MessageBuilder::parse(vec![
        text("Hello "),
        open("<strong>"),
        text("World"),
        MsgToken::TagClosing,
        open_self_closing("<br/>"),
        open("<p>"),
        open("<em>"),
        text("x"),
        MsgToken::TagClosing,
        MsgToken::TagClosing,
    ]);
    assert_eq!(r.message_str, "Hello <0>World</0><1/><2><3>x</3></2>");
    assert_eq!(
        table(&r.components),
        pairs(&[("0", "<strong>"), ("1", "<br/>"), ("2", "<p>"), ("3", "<em>")])
    );
    assert!(r.values.is_none());
}

#[test]
fn unmatched_closing_tag_is_ignored() {
    let r = MessageBuilder::parse(vec![text("a"), MsgToken::TagClosing, text("b")]);
    assert_eq!(r.message_str, "ab");
    assert!(r.components.is_none());
}

#[test]
fn tags_inside_choice_continue_the_numbering() {
    let r = MessageBuilder::parse(vec![
        open("<a>"),
        text("x"),
        MsgToken::TagClosing,
        choice(
            ident("count"),
            "plural",
            vec![
                case("one", vec![open("<b>"), text("#"), MsgToken::TagClosing, text(" slot")]),
                case("other", vec![open("<i>"), text("#"), MsgToken::TagClosing, text(" slots")]),
            ],
        ),
    ]);
    assert_eq!(
        r.message_str,
        "<0>x</0>{count, plural, one {<1>#</1> slot} other {<2>#</2> slots}}"
    );
    assert_eq!(table(&r.components), pairs(&[("0", "<a>"), ("1", "<b>"), ("2", "<i>")]));
    assert_eq!(table(&r.values), pairs(&[("count", "count")]));
}

#[test]
fn plural_with_offset_and_exact_matches() {
    let r = MessageBuilder::parse(vec![choice(
        other("users.length"),
        "plural",
        vec![
            CaseOrOffset::Offset("1".to_string()),
            case("=0", vec![text("No books")]),
            case("=1", vec![text("1 book")]),
            case("other", vec![text("# books")]),
        ],
    )]);
    assert_eq!(r.message_str, "{0, plural, offset:1 =0 {No books} =1 {1 book} other {# books}}");
    assert_eq!(table(&r.values), pairs(&[("0", "users.length")]));
}

#[test]
fn choice_bodies_register_their_values() {
    let r = MessageBuilder::parse(vec![choice(
        ident("count"),
        "plural",
        vec![
            case("one", vec![MsgToken::Expression(other("foo.bar"))]),
            case("other", vec![MsgToken::Expression(ident("variable"))]),
        ],
    )]);
    assert_eq!(r.message_str, "{count, plural, one {{0}} other {{variable}}}");
    assert_eq!(
        table(&r.values),
        pairs(&[("count", "count"), ("variable", "variable"), ("0", "foo.bar")])
    );
}

#[test]
fn compiling_twice_gives_the_same_result() {
    let tokens = || {
        vec![
            text("Hi "),
            MsgToken::Expression(ident("name")),
            open("<b>"),
            MsgToken::Expression(other("f()")),
            MsgToken::TagClosing,
        ]
    };
    let a = MessageBuilder::parse(tokens());
    let b = MessageBuilder::parse(tokens());
    assert_eq!(summary(&a), summary(&b));
    assert_eq!(a.message_str, "Hi {name}<0>{0}</0>");
}
