//! Regular-expression search and replacement, and trimming of white space.

use vstd::prelude::*;

verus! {

#[verifier::external_type_specification]
#[verifier::external_body]
pub struct ExRegex(regex::Regex);

/// Whether the regex crate accepts `p` as a regular expression.
pub uninterp spec fn regex_compiles(p: Seq<char>) -> bool;

/// Whether the regular expression `p` matches somewhere in `s`.
pub uninterp spec fn regex_is_match(p: Seq<char>, s: Seq<char>) -> bool;

/// `s` with the leftmost match of `p` replaced by `rep`, where `$n` in `rep`
/// stands for the text of group `n` (empty for a group that took no part).
pub uninterp spec fn regex_replace_first(p: Seq<char>, s: Seq<char>, rep: Seq<char>) -> Seq<char>;

/// `s` with every non-overlapping match of `p`, leftmost first, replaced by
/// `rep`, with `$n` expanded as in `regex_replace_first`.
pub uninterp spec fn regex_replace_all(p: Seq<char>, s: Seq<char>, rep: Seq<char>) -> Seq<char>;

/// A compiled regular expression, with the text it was compiled from.
pub struct Pattern {
    source: String,
    re: regex::Regex,
}

impl Pattern {
    pub closed spec fn source(&self) -> Seq<char> {
        self.source@
    }

    /// Relies on `regex::Regex::new`: it compiles `p`, or fails when `p` is
    /// not a regular expression that the crate accepts.
    #[verifier::external_body]
    fn new(p: &str) -> (r: Option<Pattern>)
        ensures
            r is Some <==> regex_compiles(p@),
            r matches Some(x) ==> x.source() == p@,
    {
        match regex::Regex::new(p) {
            Ok(re) => Some(Pattern { source: p.to_string(), re }),
            Err(_) => None,
        }
    }

    /// Relies on `regex::Regex::is_match`.
    #[verifier::external_body]
    fn is_match(&self, s: &str) -> (r: bool)
        ensures
            r == regex_is_match(self.source(), s@),
    {
        self.re.is_match(s)
    }

    /// Relies on `regex::Regex::replace`, with `rep` read for `$` groups.
    #[verifier::external_body]
    fn replace_first(&self, s: &str, rep: &str) -> (r: String)
        ensures
            r@ == regex_replace_first(self.source(), s@, rep@),
    {
        self.re.replace(s, rep).into_owned()
    }

    /// Relies on `regex::Regex::replace_all`, with `rep` read for `$` groups.
    #[verifier::external_body]
    fn replace_all(&self, s: &str, rep: &str) -> (r: String)
        ensures
            r@ == regex_replace_all(self.source(), s@, rep@),
    {
        self.re.replace_all(s, rep).into_owned()
    }
}

/// Whether `p` matches somewhere in `s`; a pattern that does not compile
/// matches nothing.
pub open spec fn matches_somewhere(p: Seq<char>, s: Seq<char>) -> bool {
    regex_compiles(p) && regex_is_match(p, s)
}

/// `s` with the first match of `p` replaced; a pattern that does not compile
/// leaves `s` as it is.
pub open spec fn replaced_first(p: Seq<char>, s: Seq<char>, rep: Seq<char>) -> Seq<char> {
    if regex_compiles(p) {
        regex_replace_first(p, s, rep)
    } else {
        s
    }
}

/// `s` with every match of `p` replaced; a pattern that does not compile
/// leaves `s` as it is.
pub open spec fn replaced_all(p: Seq<char>, s: Seq<char>, rep: Seq<char>) -> Seq<char> {
    if regex_compiles(p) {
        regex_replace_all(p, s, rep)
    } else {
        s
    }
}

pub(crate) fn is_match_in(pattern: &str, s: &str) -> (r: bool)
    ensures
        r == matches_somewhere(pattern@, s@),
{
    match Pattern::new(pattern) {
        Some(re) => re.is_match(s),
        None => false,
    }
}

pub(crate) fn replace_first_in(pattern: &str, s: &str, rep: &str) -> (r: String)
    ensures
        r@ == replaced_first(pattern@, s@, rep@),
{
    match Pattern::new(pattern) {
        Some(re) => re.replace_first(s, rep),
        None => s.to_owned(),
    }
}

pub(crate) fn replace_all_in(pattern: &str, s: &str, rep: &str) -> (r: String)
    ensures
        r@ == replaced_all(pattern@, s@, rep@),
{
    match Pattern::new(pattern) {
        Some(re) => re.replace_all(s, rep),
        None => s.to_owned(),
    }
}

/// White space in the sense of Unicode's `White_Space` property.
pub open spec fn is_white_space(c: char) -> bool {
    ||| ('\u{9}' <= c && c <= '\u{d}')
    ||| c == ' '
    ||| c == '\u{85}'
    ||| c == '\u{a0}'
    ||| c == '\u{1680}'
    ||| ('\u{2000}' <= c && c <= '\u{200a}')
    ||| c == '\u{2028}'
    ||| c == '\u{2029}'
    ||| c == '\u{202f}'
    ||| c == '\u{205f}'
    ||| c == '\u{3000}'
}

pub open spec fn trim_start(s: Seq<char>) -> Seq<char>
    decreases s.len(),
{
    if s.len() > 0 && is_white_space(s[0]) {
        trim_start(s.drop_first())
    } else {
        s
    }
}

pub open spec fn trim_end(s: Seq<char>) -> Seq<char>
    decreases s.len(),
{
    if s.len() > 0 && is_white_space(s.last()) {
        trim_end(s.drop_last())
    } else {
        s
    }
}

/// `s` without leading and trailing white space.
pub open spec fn trimmed(s: Seq<char>) -> Seq<char> {
    trim_end(trim_start(s))
}

/// Relies on `str::trim`, which removes leading and trailing characters of
/// Unicode's `White_Space` property.
#[verifier::external_body]
pub(crate) fn trim(s: &str) -> (r: String)
    ensures
        r@ == trimmed(s@),
{
    s.trim().to_string()
}

} // verus!
