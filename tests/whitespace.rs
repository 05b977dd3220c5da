use lingui_icu::whitespace::{
    clean_jsx_element_literal_child, normalize_whitespaces, normalize_whitespaces_js, normalize_whitespaces_jsx,
};

#[test]
    fn test_normalize_whitespaces_js() {
        assert_eq!(
            normalize_whitespaces_js(
                r#"Multiline
                    string"#
            ),
            "Multiline\nstring")
    }

#[test]
    fn normalize_witespaces_jsx_test_normalize_whitespaces() {
        assert_eq!(
            normalize_whitespaces_jsx(
                r#"
    Hello <strong>World!</strong><br />
    <p>
     My name is <a href="/about">{{" "}}\s
      <em>{{name}}</em></a>
    </p>
    "#
            ),
            r#"Hello <strong>World!</strong><br /><p>My name is <a href="/about">{{" "}}\s<em>{{name}}</em></a></p>"#)
    }

#[test]
    fn normalize_witespaces_jsx_test_normalize_whitespaces2() {
        assert_eq!(
            normalize_whitespaces_jsx(
                r#"
          Property {0},
          function {1},
          array {2},
          constant {3},
          object {4},
          everything {5}
    "#
            ),
            r#"Property {0}, function {1}, array {2}, constant {3}, object {4}, everything {5}"#)
    }

#[test]
    fn normalize_witespaces_jsx_remove_trailing_in_icu() {
        assert_eq!(
            normalize_whitespaces_jsx(
                r#"{count, plural, one {

              <0>#</0> slot added

            } other {

              <1>#</1> slots added

            }}
"#
            ),
            r#"{count, plural, one {<0>#</0> slot added} other {<1>#</1> slots added}}"#)
    }

#[test]
    fn remove_leading_in_icu() {
        assert_eq!(
            normalize_whitespaces_jsx(
                r#"{count, plural, one {

              One hello

            } other {

              Other hello

            }}
"#
            ),
            r#"{count, plural, one {One hello} other {Other hello}}"#)
    }

#[test]
    fn utils_test_normalize_whitespaces() {
        assert_eq!(
            normalize_whitespaces(
                r#"
    Hello <strong>World!</strong><br />
    <p>
     My name is <a href="/about">{{" "}}\s
      <em>{{name}}</em></a>
    </p>
    "#
            ),
            r#"Hello <strong>World!</strong><br /><p>My name is <a href="/about">{{" "}}\s<em>{{name}}</em></a></p>"#)
    }

#[test]
    fn utils_test_normalize_whitespaces2() {
        assert_eq!(
            normalize_whitespaces(
                r#"
          Property {0},
          function {1},
          array {2},
          constant {3},
          object {4},
          everything {5}
    "#
            ),
            r#"Property {0}, function {1}, array {2}, constant {3}, object {4}, everything {5}"#)
    }

#[test]
    fn utils_remove_trailing_in_icu() {
        assert_eq!(
            normalize_whitespaces(
                r#"{count, plural, one {

              <0>#</0> slot added

            } other {

              <1>#</1> slots added

            }}
"#
            ),
            r#"{count, plural, one {<0>#</0> slot added} other {<1>#</1> slots added}}"#)
    }

#[test]
fn markup_fixture_collapses_tags_and_breaks() {
    assert_eq!(
        normalize_whitespaces_jsx(
            "\nHello <strong>World!</strong><br />\n<p>\n My name is <a href=\"/about\">{\" \"}\n  <em>{name}</em></a>\n</p>\n"
        ),
        "Hello <strong>World!</strong><br /><p>My name is <a href=\"/about\">{\" \"}<em>{name}</em></a></p>"
    );
}

#[test]
fn js_continuation_becomes_one_space() {
    assert_eq!(normalize_whitespaces_js("  one \\\n    two  "), "one  two");
    assert_eq!(normalize_whitespaces_js("a\n\n   b"), "a\nb");
    assert_eq!(normalize_whitespaces_js(""), "");
}

#[test]
fn markup_escaped_new_line_becomes_real() {
    assert_eq!(normalize_whitespaces_jsx("first\\nsecond"), "first\nsecond");
    assert_eq!(normalize_whitespaces("first\\nsecond"), "first\\nsecond");
}

#[test]
fn plain_markup_keeps_space_after_opening_brace() {
    assert_eq!(normalize_whitespaces("{  a  }"), "{  a}");
    assert_eq!(normalize_whitespaces_jsx("{  a  }"), "{a}");
}

#[test]
fn normalizing_twice_changes_nothing_more() {
    let once = normalize_whitespaces_jsx("\n   Hello\n   <b>World</b>\n  ");
    assert_eq!(once, "Hello<b>World</b>");
    assert_eq!(normalize_whitespaces_jsx(&once), once);
    let js = normalize_whitespaces_js("a\n   b \\\n   c");
    assert_eq!(normalize_whitespaces_js(&js), js);
}

#[test]
fn literal_child_lines_are_joined_with_spaces() {
    assert_eq!(clean_jsx_element_literal_child("Hello"), "Hello");
    assert_eq!(clean_jsx_element_literal_child("\n  Hello\n  World\n"), "Hello World");
    assert_eq!(clean_jsx_element_literal_child("foo  \n   "), "foo");
}

#[test]
fn literal_child_single_line_keeps_its_spaces() {
    assert_eq!(clean_jsx_element_literal_child("  x  "), "  x  ");
    assert_eq!(clean_jsx_element_literal_child("a\t\tb"), "a  b");
    assert_eq!(clean_jsx_element_literal_child(""), "");
}
