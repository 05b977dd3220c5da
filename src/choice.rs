//! Case keys of plural, select and selectordinal constructs, and the entry
//! lists built from them.

use vstd::prelude::*;
use vstd::string::StringExecFns;

use crate::pattern::{is_match_in, matches_somewhere, replace_first_in, replaced_first};
use crate::text::{decimal, to_decimal};
use crate::tokens::{CaseOrOffset, ChoiceCase, MsgToken};

verus! {

/// A key as a plural category word, or an underscore followed by digits or a word.
pub const PLURAL_OPTIONS_WHITELIST_RE: &'static str = r"(_[\d\w]+|zero|one|two|few|many|other)";

/// An underscore followed by digits: an exact-match key.
pub const NUM_OPTION_RE: &'static str = r"_(\d+)";

/// An underscore followed by a word.
pub const WORD_OPTION_RE: &'static str = r"_(\w+)";

/// The key of a property in an object literal.
pub enum PropKey {
    /// `one: ...`
    Ident(String),
    /// `"one": ...`
    Str(String),
    /// `0: ...`
    Num(u64),
    /// `[expr]: ...`
    Computed,
}

/// An optional string as an optional sequence of characters.
pub open spec fn opt_view(s: Option<String>) -> Option<Seq<char>> {
    match s {
        Some(x) => Some(x@),
        None => None,
    }
}

/// The case key for an object property: a word or string passes unchanged, a
/// number `n` becomes the exact match `=n`, a computed key has none.
pub open spec fn js_case_key(k: PropKey) -> Option<Seq<char>> {
    match k {
        PropKey::Ident(s) => Some(s@),
        PropKey::Str(s) => Some(s@),
        PropKey::Num(n) => Some(seq!['='] + decimal(n as nat)),
        PropKey::Computed => None,
    }
}

/// The case key for a markup attribute name, if the name is an accepted one:
/// `_n` becomes `=n` and `_word` becomes `word`.
pub open spec fn allowed_plural_option(name: Seq<char>) -> Option<Seq<char>> {
    if matches_somewhere(PLURAL_OPTIONS_WHITELIST_RE@, name) {
        let exact = replaced_first(NUM_OPTION_RE@, name, seq!['=', '$', '1']);
        Some(replaced_first(WORD_OPTION_RE@, exact, seq!['$', '1']))
    } else {
        None
    }
}

/// `select`
pub open spec fn select_format() -> Seq<char> {
    seq!['s', 'e', 'l', 'e', 'c', 't']
}

/// `offset`
pub open spec fn offset_key() -> Seq<char> {
    seq!['o', 'f', 'f', 's', 'e', 't']
}

/// Whether an entry named `key` is the `offset:` directive of a choice of
/// `format`: `select` has no offset, so there it is an ordinary case.
pub open spec fn is_offset_directive(key: Seq<char>, format: Seq<char>) -> bool {
    key == offset_key() && format != select_format()
}

/// Returns the case key of an object property, if it has one.
pub fn get_js_choice_case_key(key: &PropKey) -> (r: Option<String>)
    ensures
        opt_view(r) == js_case_key(*key),
{
    match key {
        PropKey::Ident(s) => Some(s.clone()),
        PropKey::Str(s) => Some(s.clone()),
        PropKey::Num(n) => {
            proof {
                reveal_strlit("=");
            }
            let mut k = String::from_str("=");
            let digits = to_decimal(*n);
            k.append(digits.as_str());
            proof {
                assert(k@ =~= seq!['='] + decimal(*n as nat));
            }
            Some(k)
        },
        PropKey::Computed => None,
    }
}

/// Returns the case key for a markup attribute name, or `None` when the name
/// is not an accepted case.
pub fn is_allowed_plural_option(key: &str) -> (r: Option<String>)
    ensures
        opt_view(r) == allowed_plural_option(key@),
{
    if is_match_in(PLURAL_OPTIONS_WHITELIST_RE, key) {
        proof {
            reveal_strlit("=$1");
            reveal_strlit("$1");
            assert("=$1"@ =~= seq!['=', '$', '1']);
            assert("$1"@ =~= seq!['$', '1']);
        }
        let exact = replace_first_in(NUM_OPTION_RE, key, "=$1");
        Some(replace_first_in(WORD_OPTION_RE, exact.as_str(), "$1"))
    } else {
        None
    }
}

fn is_offset_key(key: &String, format: &String) -> (r: bool)
    ensures
        r == is_offset_directive(key@, format@),
{
    proof {
        reveal_strlit("offset");
        reveal_strlit("select");
        assert("offset"@ =~= seq!['o', 'f', 'f', 's', 'e', 't']);
        assert("select"@ =~= seq!['s', 'e', 'l', 'e', 'c', 't']);
    }
    let offset = String::from_str("offset");
    let select = String::from_str("select");
    *key == offset && !(*format == select)
}

/// An entry of a choice as a value of the model.
pub enum CaseView<P> {
    Case { key: Seq<char>, tokens: Seq<MsgToken<P>> },
    Offset(Seq<char>),
}

pub open spec fn case_view<P>(c: CaseOrOffset<P>) -> CaseView<P> {
    match c {
        CaseOrOffset::Case(c) => CaseView::Case { key: c.key@, tokens: c.tokens@ },
        CaseOrOffset::Offset(n) => CaseView::Offset(n@),
    }
}

pub open spec fn cases_view<P>(cs: Seq<CaseOrOffset<P>>) -> Seq<CaseView<P>> {
    cs.map_values(|c: CaseOrOffset<P>| case_view(c))
}

/// A `key: value` property of the object literal that lists the cases of a
/// choice call, as the front-end read it.
pub struct ChoiceProp<P> {
    pub key: PropKey,
    /// the value, when it is a number literal
    pub number: Option<u64>,
    /// the value as the tokens of a case body
    pub tokens: Vec<MsgToken<P>>,
}

/// An attribute with a value of a choice element, as the front-end read it.
pub struct ChoiceAttr<P> {
    pub name: String,
    /// the value, when it reads as a string
    pub text: Option<String>,
    /// the value as the tokens of a case body
    pub tokens: Vec<MsgToken<P>>,
}

/// The entry that a property gives, if any. An `offset` property whose
/// value is not a number gives none.
pub open spec fn js_prop_entry<P>(p: ChoiceProp<P>, format: Seq<char>) -> Option<CaseView<P>> {
    match js_case_key(p.key) {
        None => None,
        Some(k) => if is_offset_directive(k, format) {
            match p.number {
                Some(n) => Some(CaseView::Offset(decimal(n as nat))),
                None => None,
            }
        } else {
            Some(CaseView::Case { key: k, tokens: p.tokens@ })
        },
    }
}

/// The entries that the properties give, in order.
pub open spec fn js_choice_cases<P>(props: Seq<ChoiceProp<P>>, format: Seq<char>) -> Seq<CaseView<P>>
    decreases props.len(),
{
    if props.len() == 0 {
        Seq::empty()
    } else {
        let init = js_choice_cases(props.drop_last(), format);
        match js_prop_entry(props.last(), format) {
            Some(e) => init.push(e),
            None => init,
        }
    }
}

/// The entry that an attribute gives, if any. An `offset` attribute whose
/// value is not a string gives none, and neither does a name that is not an
/// accepted case.
pub open spec fn markup_attr_entry<P>(a: ChoiceAttr<P>, format: Seq<char>) -> Option<CaseView<P>> {
    if is_offset_directive(a.name@, format) {
        match a.text {
            Some(t) => Some(CaseView::Offset(t@)),
            None => None,
        }
    } else {
        match allowed_plural_option(a.name@) {
            Some(k) => Some(CaseView::Case { key: k, tokens: a.tokens@ }),
            None => None,
        }
    }
}

/// The entries that the attributes give, in order.
pub open spec fn markup_choice_cases<P>(attrs: Seq<ChoiceAttr<P>>, format: Seq<char>) -> Seq<CaseView<P>>
    decreases attrs.len(),
{
    if attrs.len() == 0 {
        Seq::empty()
    } else {
        let init = markup_choice_cases(attrs.drop_last(), format);
        match markup_attr_entry(attrs.last(), format) {
            Some(e) => init.push(e),
            None => init,
        }
    }
}

/// Builds the entries of a choice call from the properties of its case
/// object, for a choice of `icu_format`.
pub fn get_choice_cases_from_obj<P>(props: Vec<ChoiceProp<P>>, icu_format: &str) -> (r: Vec<CaseOrOffset<P>>)
    ensures
        cases_view(r@) == js_choice_cases(props@, icu_format@),
{
    let format = String::from_str(icu_format);
    let ghost all = props@;
    let mut choices: Vec<CaseOrOffset<P>> = Vec::new();
    proof {
        assert(cases_view(choices@) =~= js_choice_cases(all.take(0), format@));
    }
    for prop in it: props.into_iter()
        invariant
            it.seq() == all,
            format@ == icu_format@,
            cases_view(choices@) == js_choice_cases(all.take(it.index() as int), format@),
    {
        let ghost k = it.index() as int;
        proof {
            assert(all.take(k + 1).drop_last() =~= all.take(k));
            assert(all.take(k + 1).last() == prop);
        }
        let ghost before = choices@;
        let ChoiceProp { key, number, tokens } = prop;
        match get_js_choice_case_key(&key) {
            Some(case_key) => {
                if is_offset_key(&case_key, &format) {
                    match number {
                        Some(n) => {
                            choices.push(CaseOrOffset::Offset(to_decimal(n)));
                        },
                        None => {},
                    }
                } else {
                    choices.push(CaseOrOffset::Case(ChoiceCase { key: case_key, tokens }));
                }
            },
            None => {},
        }
        proof {
            assert(cases_view(choices@) =~= match js_prop_entry(prop, format@) {
                Some(e) => cases_view(before).push(e),
                None => cases_view(before),
            });
        }
    }
    proof {
        assert(all.take(all.len() as int) =~= all);
    }
    choices
}

/// Builds the entries of a choice element from its attributes, for a choice
/// of `icu_format`.
pub fn get_choice_cases_from_attrs<P>(attrs: Vec<ChoiceAttr<P>>, icu_format: &str) -> (r: Vec<CaseOrOffset<P>>)
    ensures
        cases_view(r@) == markup_choice_cases(attrs@, icu_format@),
{
    let format = String::from_str(icu_format);
    let ghost all = attrs@;
    let mut choices: Vec<CaseOrOffset<P>> = Vec::new();
    proof {
        assert(cases_view(choices@) =~= markup_choice_cases(all.take(0), format@));
    }
    for attr in it: attrs.into_iter()
        invariant
            it.seq() == all,
            format@ == icu_format@,
            cases_view(choices@) == markup_choice_cases(all.take(it.index() as int), format@),
    {
        let ghost k = it.index() as int;
        proof {
            assert(all.take(k + 1).drop_last() =~= all.take(k));
            assert(all.take(k + 1).last() == attr);
        }
        let ghost before = choices@;
        let ChoiceAttr { name, text, tokens } = attr;
        if is_offset_key(&name, &format) {
            match text {
                Some(t) => {
                    choices.push(CaseOrOffset::Offset(t));
                },
                None => {},
            }
        } else {
            match is_allowed_plural_option(name.as_str()) {
                Some(case_key) => {
                    choices.push(CaseOrOffset::Case(ChoiceCase { key: case_key, tokens }));
                },
                None => {},
            }
        }
        proof {
            assert(cases_view(choices@) =~= match markup_attr_entry(attr, format@) {
                Some(e) => cases_view(before).push(e),
                None => cases_view(before),
            });
        }
    }
    proof {
        assert(all.take(all.len() as int) =~= all);
    }
    choices
}

/// In a `select`, an `offset` entry is an ordinary case: no entry that the
/// properties or the attributes give is an `offset:` directive, and an
/// `offset` key is kept as the case key `offset`.
pub proof fn lemma_select_has_no_offset<P>(props: Seq<ChoiceProp<P>>, attrs: Seq<ChoiceAttr<P>>)
    ensures
        forall|i: int|
            0 <= i < js_choice_cases(props, select_format()).len()
                ==> #[trigger] js_choice_cases(props, select_format())[i] is Case,
        forall|i: int|
            0 <= i < markup_choice_cases(attrs, select_format()).len()
                ==> #[trigger] markup_choice_cases(attrs, select_format())[i] is Case,
        forall|p: ChoiceProp<P>|
            js_case_key(p.key) == Some(offset_key()) ==> #[trigger] js_prop_entry(
                p,
                select_format(),
            ) == Some(CaseView::Case { key: offset_key(), tokens: p.tokens@ }),
    decreases props.len() + attrs.len(),
{
    let select = select_format();
    if props.len() > 0 {
        lemma_select_has_no_offset(props.drop_last(), attrs);
        let init = js_choice_cases(props.drop_last(), select);
        let all = js_choice_cases(props, select);
        assert forall|i: int| 0 <= i < all.len() implies #[trigger] all[i] is Case by {
            if i < init.len() {
                assert(init[i] is Case);
            }
        }
    }
    if attrs.len() > 0 {
        lemma_select_has_no_offset(props, attrs.drop_last());
        let init = markup_choice_cases(attrs.drop_last(), select);
        let all = markup_choice_cases(attrs, select);
        assert forall|i: int| 0 <= i < all.len() implies #[trigger] all[i] is Case by {
            if i < init.len() {
                assert(init[i] is Case);
            }
        }
    }
}

} // verus!
