//! Whitespace normalization of extracted message text.

use vstd::prelude::*;

use vstd::string::StringExecFns;

use crate::pattern::{
    is_match_in, matches_somewhere, replace_all_in, replace_first_in, replaced_all, replaced_first, trim,
    trimmed,
};

verus! {

/// A backslash line continuation, one or more, followed by indentation.
pub const JS_CONTINUATION_RE: &'static str = r"(?:\\(?:\r\n|\r|\n))+\s+";

/// One or more line breaks followed by indentation.
pub const JS_NEW_LINE_RE: &'static str = r"(?:\r\n|\r|\n)+\s+";

/// Line breaks together with the white space around them.
pub const KEEP_SPACE_RE: &'static str = r"\s*(?:\r\n|\r|\n)+\s*";

/// Line breaks and indentation after a `>` or `}`, or before a `<` or `{`;
/// the bracket is group 1 or group 2.
pub const STRIP_AROUND_TAGS_RE: &'static str = r"([>}])(?:\r\n|\r|\n)+\s*|(?:\r\n|\r|\n)+\s*([<{])";

/// White space before a closing brace.
pub const TRAILING_IN_EXPRESSIONS_RE: &'static str = r"(\s+})";

/// White space after an opening brace.
pub const LEADING_IN_EXPRESSIONS_RE: &'static str = r"(\{\s+)";

/// The two characters `\n`.
pub const ESCAPED_NEW_LINE_RE: &'static str = r"\\n";

/// Text from a template literal, normalized: continuations become one space,
/// line breaks with their indentation one line break, and the ends are trimmed.
pub open spec fn js_normalized(s: Seq<char>) -> Seq<char> {
    let s1 = replaced_all(JS_CONTINUATION_RE@, s, seq![' ']);
    let s2 = replaced_all(JS_NEW_LINE_RE@, s1, seq!['\n']);
    trimmed(s2)
}

/// Text from markup with line breaks folded: breaks that touch a tag or an
/// expression go, other breaks with their white space become one space.
pub open spec fn markup_folded(s: Seq<char>) -> Seq<char> {
    let s1 = replaced_all(STRIP_AROUND_TAGS_RE@, s, seq!['$', '1', '$', '2']);
    replaced_all(KEEP_SPACE_RE@, s1, seq![' '])
}

/// Text from markup, normalized: folded, with escaped line breaks made real,
/// white space inside the braces of a choice case removed, and trimmed.
pub open spec fn markup_normalized(s: Seq<char>) -> Seq<char> {
    let s1 = replaced_all(ESCAPED_NEW_LINE_RE@, markup_folded(s), seq!['\n']);
    let s2 = replaced_all(TRAILING_IN_EXPRESSIONS_RE@, s1, seq!['}']);
    let s3 = replaced_all(LEADING_IN_EXPRESSIONS_RE@, s2, seq!['{']);
    trimmed(s3)
}

/// Text from markup, folded, with white space before closing braces removed,
/// and trimmed.
pub open spec fn markup_normalized_plain(s: Seq<char>) -> Seq<char> {
    trimmed(replaced_all(TRAILING_IN_EXPRESSIONS_RE@, markup_folded(s), seq!['}']))
}

/// Normalizes the text of a template literal.
pub fn normalize_whitespaces_js(str: &str) -> (r: String)
    ensures
        r@ == js_normalized(str@),
{
    proof {
        reveal_strlit(" ");
        reveal_strlit("\n");
        assert(" "@ =~= seq![' ']);
        assert("\n"@ =~= seq!['\n']);
    }
    let s = replace_all_in(JS_CONTINUATION_RE, str, " ");
    let s = replace_all_in(JS_NEW_LINE_RE, s.as_str(), "\n");
    trim(s.as_str())
}

fn fold_markup(str: &str) -> (r: String)
    ensures
        r@ == markup_folded(str@),
{
    proof {
        reveal_strlit("$1$2");
        reveal_strlit(" ");
        assert("$1$2"@ =~= seq!['$', '1', '$', '2']);
        assert(" "@ =~= seq![' ']);
    }
    let s = replace_all_in(STRIP_AROUND_TAGS_RE, str, "$1$2");
    replace_all_in(KEEP_SPACE_RE, s.as_str(), " ")
}

/// Normalizes text taken from markup, choice case bodies included.
pub fn normalize_whitespaces_jsx(str: &str) -> (r: String)
    ensures
        r@ == markup_normalized(str@),
{
    proof {
        reveal_strlit("\n");
        reveal_strlit("}");
        reveal_strlit("{");
        assert("\n"@ =~= seq!['\n']);
        assert("}"@ =~= seq!['}']);
        assert("{"@ =~= seq!['{']);
    }
    let s = fold_markup(str);
    let s = replace_all_in(ESCAPED_NEW_LINE_RE, s.as_str(), "\n");
    let s = replace_all_in(TRAILING_IN_EXPRESSIONS_RE, s.as_str(), "}");
    let s = replace_all_in(LEADING_IN_EXPRESSIONS_RE, s.as_str(), "{");
    trim(s.as_str())
}

/// Normalizes text taken from markup, keeping escaped line breaks and the
/// white space after opening braces.
pub fn normalize_whitespaces(str: &str) -> (r: String)
    ensures
        r@ == markup_normalized_plain(str@),
{
    proof {
        reveal_strlit("}");
        assert("}"@ =~= seq!['}']);
    }
    let s = fold_markup(str);
    let s = replace_all_in(TRAILING_IN_EXPRESSIONS_RE, s.as_str(), "}");
    trim(s.as_str())
}

/// Spaces at the start of a line.
pub const LINE_START_SPACES_RE: &'static str = r"^[ ]+";

/// Spaces at the end of a line.
pub const LINE_END_SPACES_RE: &'static str = r"[ ]+$";

/// A character other than a tab or a space.
pub const NON_SPACE_RE: &'static str = r"[^\t ]";

/// The pieces of `s` between line feeds, in order; text without a line feed
/// is one piece, and the empty text is one empty piece.
pub open spec fn split_lines_spec(s: Seq<char>) -> Seq<Seq<char>>
    decreases s.len(),
{
    if s.len() == 0 {
        seq![Seq::empty()]
    } else {
        let rest = split_lines_spec(s.drop_first());
        if s[0] == '\n' {
            seq![Seq::empty()] + rest
        } else {
            rest.update(0, seq![s[0]] + rest[0])
        }
    }
}

proof fn lemma_split_lines_not_empty(s: Seq<char>)
    ensures
        split_lines_spec(s).len() >= 1,
    decreases s.len(),
{
    if s.len() > 0 {
        lemma_split_lines_not_empty(s.drop_first());
    }
}

proof fn lemma_split_lines_first(a: Seq<char>, b: Seq<char>, sep: bool)
    requires
        !a.contains('\n'),
    ensures
        sep ==> split_lines_spec(a + seq!['\n'] + b) == seq![a] + split_lines_spec(b),
        !sep ==> split_lines_spec(a) == seq![a],
    decreases a.len(),
{
    let s = if sep { a + seq!['\n'] + b } else { a };
    if a.len() == 0 {
        assert(a =~= Seq::<char>::empty());
        if sep {
            assert(s[0] == '\n');
            assert(s.drop_first() =~= b);
        }
    } else {
        assert(a[0] != '\n') by {
            if a[0] == '\n' {
                assert(a.contains('\n'));
            }
        }
        let a1 = a.drop_first();
        assert(!a1.contains('\n')) by {
            if a1.contains('\n') {
                let i = choose|i: int| 0 <= i < a1.len() && a1[i] == '\n';
                assert(a[i + 1] == '\n');
            }
        }
        lemma_split_lines_first(a1, b, sep);
        lemma_split_lines_not_empty(s.drop_first());
        if sep {
            assert(s.drop_first() =~= a1 + seq!['\n'] + b);
            assert(seq![a[0]] + a1 =~= a);
            assert(split_lines_spec(s) =~= seq![a] + split_lines_spec(b));
        } else {
            assert(s.drop_first() =~= a1);
            assert(seq![a[0]] + a1 =~= a);
            assert(split_lines_spec(s) =~= seq![a]);
        }
    }
}

/// Relies on `str::split_once` with a `char` delimiter: the text before the
/// first line feed and the text after it, or `None` without a line feed.
#[verifier::external_body]
fn split_once_line_feed<'a>(s: &'a str) -> (r: Option<(&'a str, &'a str)>)
    ensures
        match r {
            Some((a, b)) => s@ == a@ + seq!['\n'] + b@ && !a@.contains('\n'),
            None => !s@.contains('\n'),
        },
{
    s.split_once('\n')
}

fn split_lines(s: &str) -> (r: Vec<String>)
    ensures
        r@.map_values(|l: String| l@) == split_lines_spec(s@),
{
    let mut lines: Vec<String> = Vec::new();
    let mut rest: &str = s;
    loop
        invariant
            split_lines_spec(s@) == lines@.map_values(|l: String| l@) + split_lines_spec(rest@),
        decreases rest@.len(),
    {
        match split_once_line_feed(rest) {
            Some((line, after)) => {
                proof {
                    lemma_split_lines_first(line@, after@, true);
                }
                let ghost before = lines@.map_values(|l: String| l@);
                lines.push(String::from_str(line));
                proof {
                    assert(lines@.map_values(|l: String| l@) =~= before.push(line@));
                    assert(before + (seq![line@] + split_lines_spec(after@)) =~= before.push(line@)
                        + split_lines_spec(after@));
                }
                rest = after;
            },
            None => {
                proof {
                    lemma_split_lines_first(rest@, Seq::empty(), false);
                }
                let ghost before = lines@.map_values(|l: String| l@);
                lines.push(String::from_str(rest));
                proof {
                    assert(lines@.map_values(|l: String| l@) =~= before + seq![rest@]);
                }
                return lines;
            },
        }
    }
}

/// `s` with each tab made a space.
pub open spec fn tabs_to_spaces(s: Seq<char>) -> Seq<char> {
    s.map_values(|c: char| if c == '\t' { ' ' } else { c })
}

/// Relies on `str::replace`: every tab replaced by a space.
#[verifier::external_body]
fn replace_tabs(s: &str) -> (r: String)
    ensures
        r@ == tabs_to_spaces(s@),
{
    s.replace('\t', " ")
}

/// The index of the last line with a character other than a tab or a space,
/// or 0 when there is none.
pub open spec fn last_non_blank(lines: Seq<Seq<char>>) -> int
    decreases lines.len(),
{
    if lines.len() == 0 {
        0
    } else if matches_somewhere(NON_SPACE_RE@, lines.last()) {
        lines.len() - 1
    } else {
        last_non_blank(lines.drop_last())
    }
}

/// Line `i` of a literal child, cleaned: tabs become spaces, spaces touching
/// a line break go, and a kept line is followed by a space unless it is the
/// last non-blank one.
pub open spec fn cleaned_line(lines: Seq<Seq<char>>, i: int) -> Seq<char> {
    let t0 = tabs_to_spaces(lines[i]);
    let t1 = if i == 0 { t0 } else { replaced_first(LINE_START_SPACES_RE@, t0, Seq::empty()) };
    let t2 = if i == lines.len() - 1 { t1 } else { replaced_first(LINE_END_SPACES_RE@, t1, Seq::empty()) };
    if t2.len() == 0 {
        t2
    } else if i == last_non_blank(lines) {
        t2
    } else {
        t2.push(' ')
    }
}

/// The cleaned lines `0 .. n`, concatenated.
pub open spec fn cleaned_lines(lines: Seq<Seq<char>>, n: int) -> Seq<char>
    decreases n,
{
    if n <= 0 {
        Seq::empty()
    } else {
        cleaned_lines(lines, n - 1) + cleaned_line(lines, n - 1)
    }
}

/// The text of a markup literal child as it renders: its lines cleaned and
/// joined.
pub open spec fn cleaned_literal_child(value: Seq<char>) -> Seq<char> {
    let lines = split_lines_spec(value);
    cleaned_lines(lines, lines.len() as int)
}

/// Cleans the text of a markup literal child: what it renders as.
pub fn clean_jsx_element_literal_child(value: &str) -> (r: String)
    ensures
        r@ == cleaned_literal_child(value@),
{
    let lines = split_lines(value);
    let ghost ls = split_lines_spec(value@);
    proof {
        lemma_split_lines_not_empty(value@);
        assert(lines@.map_values(|l: String| l@).len() == lines@.len());
    }
    let n = lines.len();
    let mut last_non_empty_line: usize = 0;
    let mut i: usize = 0;
    while i < n
        invariant
            n == lines@.len(),
            n == ls.len(),
            lines@.map_values(|l: String| l@) == ls,
            0 <= i <= n,
            last_non_empty_line as int == last_non_blank(ls.take(i as int)),
            last_non_empty_line <= i,
        decreases n - i,
    {
        proof {
            assert(ls.take(i as int + 1).drop_last() =~= ls.take(i as int));
            assert(ls[i as int] == lines@[i as int]@);
        }
        if is_match_in(NON_SPACE_RE, lines[i].as_str()) {
            last_non_empty_line = i;
        }
        i = i + 1;
    }
    proof {
        assert(ls.take(n as int) =~= ls);
    }
    let mut result = String::new();
    proof {
        reveal_strlit("");
        reveal_strlit(" ");
        assert(""@ =~= Seq::<char>::empty());
        assert(" "@ =~= seq![' ']);
    }
    let mut i: usize = 0;
    while i < n
        invariant
            n == lines@.len(),
            n == ls.len(),
            n >= 1,
            lines@.map_values(|l: String| l@) == ls,
            0 <= i <= n,
            last_non_empty_line as int == last_non_blank(ls),
            result@ == cleaned_lines(ls, i as int),
            ""@ =~= Seq::<char>::empty(),
            " "@ =~= seq![' '],
        decreases n - i,
    {
        proof {
            assert(ls[i as int] == lines@[i as int]@);
        }
        let is_first_line = i == 0;
        let is_last_line = i == n - 1;
        let is_last_non_empty_line = i == last_non_empty_line;
        let mut trimmed_line = replace_tabs(lines[i].as_str());
        if !is_first_line {
            trimmed_line = replace_first_in(LINE_START_SPACES_RE, trimmed_line.as_str(), "");
        }
        if !is_last_line {
            trimmed_line = replace_first_in(LINE_END_SPACES_RE, trimmed_line.as_str(), "");
        }
        if !trimmed_line.as_str().is_empty() {
            if !is_last_non_empty_line {
                trimmed_line.append(" ");
            }
            result.append(trimmed_line.as_str());
        }
        proof {
            assert(result@ =~= cleaned_lines(ls, i as int) + cleaned_line(ls, i as int));
        }
        i = i + 1;
    }
    result
}

} // verus!
