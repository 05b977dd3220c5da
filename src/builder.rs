//! The message builder: turns a token stream into an ICU message string, a
//! table of interpolated values and a table of components.

use vstd::prelude::*;
use vstd::string::StringExecFns;

use crate::text::{decimal, to_decimal};
use crate::tokens::{CaseOrOffset, ChoiceCase, Expression, IcuChoice, MsgToken, TagOpening};

verus! {

broadcast use vstd::std_specs::vec::group_vec_axioms;

/// A placeholder name bound to a payload.
pub struct ValueWithPlaceholder<P> {
    pub placeholder: String,
    pub value: P,
}

/// A table entry as a pair of placeholder and payload.
pub open spec fn entry_of<P>(e: ValueWithPlaceholder<P>) -> (Seq<char>, P) {
    (e.placeholder@, e.value)
}

/// A table as a sequence of pairs, in order.
pub open spec fn entries_of<P>(v: Seq<ValueWithPlaceholder<P>>) -> Seq<(Seq<char>, P)> {
    v.map_values(|e: ValueWithPlaceholder<P>| entry_of(e))
}

/// What the builder has accumulated so far.
pub struct BuildState<P> {
    pub message: Seq<char>,
    /// indices of the elements opened and not yet closed, innermost last
    pub stack: Seq<nat>,
    pub components: Seq<(Seq<char>, P)>,
    /// values named after a bare identifier
    pub values: Seq<(Seq<char>, P)>,
    /// values with an explicit label or a positional name
    pub indexed: Seq<(Seq<char>, P)>,
}

pub open spec fn initial_state<P>() -> BuildState<P> {
    BuildState {
        message: Seq::empty(),
        stack: Seq::empty(),
        components: Seq::empty(),
        values: Seq::empty(),
        indexed: Seq::empty(),
    }
}

pub open spec fn with_text<P>(s: BuildState<P>, t: Seq<char>) -> BuildState<P> {
    BuildState { message: s.message + t, ..s }
}

/// `{p}`
pub open spec fn braced(p: Seq<char>) -> Seq<char> {
    seq!['{'] + p + seq!['}']
}

/// `<i>`, or `<i/>` for a self-closing element
pub open spec fn opening_tag(i: nat, self_closing: bool) -> Seq<char> {
    if self_closing {
        seq!['<'] + decimal(i) + seq!['/', '>']
    } else {
        seq!['<'] + decimal(i) + seq!['>']
    }
}

/// `</i>`
pub open spec fn closing_tag(i: nat) -> Seq<char> {
    seq!['<', '/'] + decimal(i) + seq!['>']
}

/// `{p, format,`: the head of a choice
pub open spec fn choice_head(p: Seq<char>, format: Seq<char>) -> Seq<char> {
    seq!['{'] + p + seq![',', ' '] + format + seq![',']
}

/// ` offset:n`
pub open spec fn offset_text(n: Seq<char>) -> Seq<char> {
    seq![' ', 'o', 'f', 'f', 's', 'e', 't', ':'] + n
}

/// ` key {`: the head of a case body
pub open spec fn case_head(key: Seq<char>) -> Seq<char> {
    seq![' '] + key + seq![' ', '{']
}

/// Placeholder assignment: the state after registering the value of `e`, and
/// the placeholder it is known by.
///
/// A bare identifier is named after itself and goes to the named values. A
/// labelling object is named after its label and goes to the indexed values.
/// Anything else is named by the number of indexed values registered so far,
/// and goes to the indexed values.
pub open spec fn assign_placeholder<P>(s: BuildState<P>, e: Expression<P>) -> (BuildState<P>, Seq<char>) {
    match e {
        Expression::Ident { name, value } => (
            BuildState { values: s.values.push((name@, value)), ..s },
            name@,
        ),
        Expression::Shorthand { name, value } => (
            BuildState { indexed: s.indexed.push((name@, value)), ..s },
            name@,
        ),
        Expression::Labeled { name, value } => (
            BuildState { indexed: s.indexed.push((name@, value)), ..s },
            name@,
        ),
        Expression::Other { value } => {
            let p = decimal(s.indexed.len());
            (BuildState { indexed: s.indexed.push((p, value)), ..s }, p)
        },
    }
}

/// The state after an opened element.
pub open spec fn open_tag<P>(s: BuildState<P>, self_closing: bool, el: P) -> BuildState<P> {
    let i = s.components.len();
    BuildState {
        message: s.message + opening_tag(i, self_closing),
        stack: if self_closing { s.stack } else { s.stack.push(i) },
        components: s.components.push((decimal(i), el)),
        ..s
    }
}

/// The state after a closing element: the innermost open element is closed;
/// with none open nothing changes.
pub open spec fn close_tag<P>(s: BuildState<P>) -> BuildState<P> {
    if s.stack.len() == 0 {
        s
    } else {
        BuildState {
            message: s.message + closing_tag(s.stack.last()),
            stack: s.stack.drop_last(),
            ..s
        }
    }
}

/// The state after one token.
pub open spec fn apply_token<P>(s: BuildState<P>, t: MsgToken<P>) -> BuildState<P>
    decreases t,
{
    match t {
        MsgToken::String(x) => with_text(s, x@),
        MsgToken::Expression(e) => {
            let (s1, p) = assign_placeholder(s, e);
            with_text(s1, braced(p))
        },
        MsgToken::TagOpening(o) => open_tag(s, o.self_closing, o.el),
        MsgToken::TagClosing => close_tag(s),
        MsgToken::IcuChoice(c) => {
            let (s1, p) = assign_placeholder(s, c.value);
            let s2 = with_text(s1, choice_head(p, c.format@));
            with_text(apply_cases(s2, c.cases@), seq!['}'])
        },
    }
}

/// The state after a sequence of tokens, in order.
pub open spec fn apply_tokens<P>(s: BuildState<P>, ts: Seq<MsgToken<P>>) -> BuildState<P>
    decreases ts,
{
    if ts.len() == 0 {
        s
    } else {
        apply_token(apply_tokens(s, ts.drop_last()), ts.last())
    }
}

/// The state after one entry of a choice.
pub open spec fn apply_case<P>(s: BuildState<P>, c: CaseOrOffset<P>) -> BuildState<P>
    decreases c,
{
    match c {
        CaseOrOffset::Offset(n) => with_text(s, offset_text(n@)),
        CaseOrOffset::Case(c) => {
            let s1 = with_text(s, case_head(c.key@));
            with_text(apply_tokens(s1, c.tokens@), seq!['}'])
        },
    }
}

/// The state after the entries of a choice, in order; case bodies write into
/// the same message.
pub open spec fn apply_cases<P>(s: BuildState<P>, cs: Seq<CaseOrOffset<P>>) -> BuildState<P>
    decreases cs,
{
    if cs.len() == 0 {
        s
    } else {
        apply_case(apply_cases(s, cs.drop_last()), cs.last())
    }
}

/// Whether some entry of `s` has the placeholder `p`.
pub open spec fn has_placeholder<P>(s: Seq<(Seq<char>, P)>, p: Seq<char>) -> bool {
    exists|i: int| 0 <= i < s.len() && (#[trigger] s[i]).0 == p
}

/// `s` with only the first entry for each placeholder, in the order of `s`.
pub open spec fn dedup_by_placeholder<P>(s: Seq<(Seq<char>, P)>) -> Seq<(Seq<char>, P)>
    decreases s.len(),
{
    if s.len() == 0 {
        s
    } else {
        let d = dedup_by_placeholder(s.drop_last());
        if has_placeholder(s.drop_last(), s.last().0) {
            d
        } else {
            d.push(s.last())
        }
    }
}

/// A compiled message: the message text and its two tables.
pub struct CompiledMessage<P> {
    pub message: Seq<char>,
    pub values: Seq<(Seq<char>, P)>,
    pub components: Seq<(Seq<char>, P)>,
}

/// The final reduction: named values come before indexed ones, and only the
/// first entry for each placeholder is kept.
pub open spec fn finish<P>(s: BuildState<P>) -> CompiledMessage<P> {
    CompiledMessage {
        message: s.message,
        values: dedup_by_placeholder(s.values + s.indexed),
        components: s.components,
    }
}

/// The message that a token stream compiles to.
pub open spec fn compile<P>(tokens: Seq<MsgToken<P>>) -> CompiledMessage<P> {
    finish(apply_tokens(initial_state(), tokens))
}

/// An optional table holds exactly `entries`, and is absent exactly when
/// there are none.
pub open spec fn table_is<P>(t: Option<Vec<ValueWithPlaceholder<P>>>, entries: Seq<(Seq<char>, P)>) -> bool {
    match t {
        None => entries.len() == 0,
        Some(v) => entries.len() > 0 && entries_of(v@) == entries,
    }
}

/// The output of the builder.
pub struct MessageBuilderResult<P> {
    pub message_str: String,
    pub values: Option<Vec<ValueWithPlaceholder<P>>>,
    pub components: Option<Vec<ValueWithPlaceholder<P>>>,
}

impl<P> MessageBuilderResult<P> {
    /// This result holds the compiled message `c`.
    pub open spec fn holds(&self, c: CompiledMessage<P>) -> bool {
        &&& self.message_str@ == c.message
        &&& table_is(self.values, c.values)
        &&& table_is(self.components, c.components)
    }
}

proof fn lemma_dedup_has_placeholder<P>(s: Seq<(Seq<char>, P)>, p: Seq<char>)
    ensures
        has_placeholder(dedup_by_placeholder(s), p) == has_placeholder(s, p),
    decreases s.len(),
{
    if s.len() > 0 {
        let init = s.drop_last();
        lemma_dedup_has_placeholder(init, p);
        let d = dedup_by_placeholder(init);
        if has_placeholder(s, p) {
            let i = choose|i: int| 0 <= i < s.len() && (#[trigger] s[i]).0 == p;
            if i < s.len() - 1 {
                assert(init[i] == s[i]);
            }
        }
        if has_placeholder(init, p) {
            let i = choose|i: int| 0 <= i < init.len() && (#[trigger] init[i]).0 == p;
            assert(s[i] == init[i]);
        }
        if !has_placeholder(init, s.last().0) {
            let dd = d.push(s.last());
            if has_placeholder(d, p) {
                let i = choose|i: int| 0 <= i < d.len() && (#[trigger] d[i]).0 == p;
                assert(dd[i] == d[i]);
            }
            if has_placeholder(dd, p) {
                let i = choose|i: int| 0 <= i < dd.len() && (#[trigger] dd[i]).0 == p;
                if i < d.len() {
                    assert(d[i] == dd[i]);
                } else {
                    assert(s[s.len() - 1].0 == p);
                }
            }
            if p == s.last().0 {
                assert(dd[dd.len() - 1] == s.last());
            }
        }
    }
}

fn dedup_values<P>(v: Vec<ValueWithPlaceholder<P>>) -> (r: Vec<ValueWithPlaceholder<P>>)
    ensures
        entries_of(r@) == dedup_by_placeholder(entries_of(v@)),
{
    let ghost all = v@;
    let mut out: Vec<ValueWithPlaceholder<P>> = Vec::new();
    proof {
        assert(entries_of(all.take(0)) =~= Seq::<(Seq<char>, P)>::empty());
    }
    for e in it: v.into_iter()
        invariant
            it.seq() == all,
            entries_of(out@) == dedup_by_placeholder(entries_of(all.take(it.index() as int))),
    {
        let ghost k = it.index() as int;
        let ghost prefix = entries_of(all.take(k));
        proof {
            assert(entries_of(all.take(k + 1)).drop_last() =~= prefix);
            assert(entries_of(all.take(k + 1)).last() == entry_of(e));
            lemma_dedup_has_placeholder(prefix, e.placeholder@);
        }
        let mut seen = false;
        let mut j: usize = 0;
        while j < out.len()
            invariant
                0 <= j <= out.len(),
                entries_of(out@) == dedup_by_placeholder(prefix),
                seen == has_placeholder(entries_of(out@).take(j as int), e.placeholder@),
            decreases out.len() - j,
        {
            proof {
                let t = entries_of(out@).take(j as int + 1);
                let t0 = entries_of(out@).take(j as int);
                if has_placeholder(t, e.placeholder@) {
                    let i = choose|i: int| 0 <= i < t.len() && (#[trigger] t[i]).0 == e.placeholder@;
                    if i < j {
                        assert(t0[i] == t[i]);
                    }
                }
                if has_placeholder(t0, e.placeholder@) {
                    let i = choose|i: int| 0 <= i < t0.len() && (#[trigger] t0[i]).0 == e.placeholder@;
                    assert(t[i] == t0[i]);
                }
                assert(t[j as int] == entry_of(out@[j as int]));
            }
            if out[j].placeholder == e.placeholder {
                seen = true;
            }
            j = j + 1;
        }
        proof {
            assert(entries_of(out@).take(out.len() as int) =~= entries_of(out@));
        }
        if !seen {
            out.push(e);
            proof {
                assert(entries_of(out@) =~= dedup_by_placeholder(prefix).push(entry_of(e)));
            }
        }
    }
    proof {
        assert(all.take(all.len() as int) =~= all);
    }
    out
}

/// Accumulates a message over one pass of a token stream.
pub struct MessageBuilder<P> {
    message: String,
    components_stack: Vec<usize>,
    components: Vec<ValueWithPlaceholder<P>>,
    values: Vec<ValueWithPlaceholder<P>>,
    values_indexed: Vec<ValueWithPlaceholder<P>>,
}

impl<P> MessageBuilder<P> {
    /// Compiles a token stream in one pass.
    pub fn parse(tokens: Vec<MsgToken<P>>) -> (r: MessageBuilderResult<P>)
        ensures
            r.holds(compile(tokens@)),
    {
        let mut builder = MessageBuilder {
            message: String::new(),
            components_stack: Vec::new(),
            components: Vec::new(),
            values: Vec::new(),
            values_indexed: Vec::new(),
        };
        proof {
            assert(builder.components_stack@.map_values(|i: usize| i as nat) =~= Seq::empty());
            assert(entries_of(builder.components@) =~= Seq::empty());
            assert(entries_of(builder.values@) =~= Seq::empty());
            assert(entries_of(builder.values_indexed@) =~= Seq::empty());
            assert(builder.state() == initial_state::<P>());
        }
        builder.from_tokens(tokens);
        builder.to_args()
    }

    /// Ends the compilation: the message, the values without repeated
    /// placeholders, and the components.
    pub fn to_args(self) -> (r: MessageBuilderResult<P>)
        ensures
            r.holds(finish(self.state())),
    {
        let ghost s = self.state();
        let MessageBuilder { message, components_stack, components, mut values, mut values_indexed } =
            self;
        values.append(&mut values_indexed);
        proof {
            assert(entries_of(values@) =~= s.values + s.indexed);
        }
        let values = if values.len() > 0 {
            proof {
                let all = s.values + s.indexed;
                assert(has_placeholder(all, all[0].0));
                lemma_dedup_has_placeholder(all, all[0].0);
            }
            Some(dedup_values(values))
        } else {
            None
        };
        let components = if components.len() > 0 {
            Some(components)
        } else {
            None
        };
        MessageBuilderResult { message_str: message, values, components }
    }

    /// The builder's state, as a value of the model.
    pub closed spec fn state(&self) -> BuildState<P> {
        BuildState {
            message: self.message@,
            stack: self.components_stack@.map_values(|i: usize| i as nat),
            components: entries_of(self.components@),
            values: entries_of(self.values@),
            indexed: entries_of(self.values_indexed@),
        }
    }

    fn push_msg(&mut self, val: &str)
        ensures
            final(self).state() == with_text(old(self).state(), val@),
    {
        self.message.append(val);
        proof {
            assert(self.components_stack@ == old(self).components_stack@);
        }
    }

    fn push_exp(&mut self, exp: Expression<P>) -> (placeholder: String)
        ensures
            (final(self).state(), placeholder@) == assign_placeholder(old(self).state(), exp),
    {
        match exp {
            Expression::Ident { name, value } => {
                let placeholder = name.clone();
                self.values.push(ValueWithPlaceholder { placeholder: name, value });
                proof {
                    assert(entries_of(self.values@) =~= entries_of(old(self).values@).push(
                        (placeholder@, value),
                    ));
                }
                placeholder
            },
            Expression::Shorthand { name, value } => {
                let placeholder = name.clone();
                self.values_indexed.push(ValueWithPlaceholder { placeholder: name, value });
                proof {
                    assert(entries_of(self.values_indexed@) =~= entries_of(
                        old(self).values_indexed@,
                    ).push((placeholder@, value)));
                }
                placeholder
            },
            Expression::Labeled { name, value } => {
                let placeholder = name.clone();
                self.values_indexed.push(ValueWithPlaceholder { placeholder: name, value });
                proof {
                    assert(entries_of(self.values_indexed@) =~= entries_of(
                        old(self).values_indexed@,
                    ).push((placeholder@, value)));
                }
                placeholder
            },
            Expression::Other { value } => {
                let placeholder = to_decimal(self.values_indexed.len() as u64);
                self.values_indexed.push(
                    ValueWithPlaceholder { placeholder: placeholder.clone(), value },
                );
                proof {
                    assert(entries_of(self.values_indexed@) =~= entries_of(
                        old(self).values_indexed@,
                    ).push((placeholder@, value)));
                }
                placeholder
            },
        }
    }

    fn push_tag_opening(&mut self, el: P, self_closing: bool)
        ensures
            final(self).state() == open_tag(old(self).state(), self_closing, el),
    {
        let current = self.components.len();
        let index = to_decimal(current as u64);
        if self_closing {
            proof { reveal_strlit("<"); reveal_strlit("/>"); }
            self.message.append("<");
            self.message.append(index.as_str());
            self.message.append("/>");
        } else {
            proof { reveal_strlit("<"); reveal_strlit(">"); }
            self.components_stack.push(current);
            self.message.append("<");
            self.message.append(index.as_str());
            self.message.append(">");
        }
        self.components.push(ValueWithPlaceholder { placeholder: index, value: el });
        proof {
            let s0 = old(self).state();
            assert(self.message@ =~= s0.message + opening_tag(current as nat, self_closing));
            assert(entries_of(self.components@) =~= s0.components.push(
                (decimal(current as nat), el),
            ));
            if self_closing {
                assert(self.components_stack@ == old(self).components_stack@);
            } else {
                assert(self.components_stack@.map_values(|i: usize| i as nat) =~= s0.stack.push(
                    current as nat,
                ));
            }
        }
    }

    fn push_tag_closing(&mut self)
        ensures
            final(self).state() == close_tag(old(self).state()),
    {
        match self.components_stack.pop() {
            Some(index) => {
                let text = to_decimal(index as u64);
                proof { reveal_strlit("</"); reveal_strlit(">"); }
                self.message.append("</");
                self.message.append(text.as_str());
                self.message.append(">");
                proof {
                    let s0 = old(self).state();
                    assert(self.message@ =~= s0.message + closing_tag(s0.stack.last()));
                    assert(self.components_stack@.map_values(|i: usize| i as nat)
                        =~= s0.stack.drop_last());
                }
            },
            None => {},
        }
    }

    fn from_tokens(&mut self, tokens: Vec<MsgToken<P>>)
        ensures
            final(self).state() == apply_tokens(old(self).state(), tokens@),
        decreases tokens,
    {
        let ghost s0 = self.state();
        let ghost all = tokens@;
        proof {
            assert(all.take(0) =~= Seq::<MsgToken<P>>::empty());
        }
        for token in it: tokens.into_iter()
            invariant
                it.seq() == all,
                all == tokens@,
                self.state() == apply_tokens(s0, all.take(it.index() as int)),
        {
            let ghost k = it.index() as int;
            let ghost before = self.state();
            let ghost tok = token;
            proof {
                assert(all.take(k + 1).drop_last() =~= all.take(k));
                assert(all.take(k + 1).last() == token);
            }
            match token {
                MsgToken::String(text) => {
                    self.push_msg(text.as_str());
                },
                MsgToken::Expression(exp) => {
                    let placeholder = self.push_exp(exp);
                    proof { reveal_strlit("{"); reveal_strlit("}"); }
                    let ghost s1 = self.state();
                    self.push_msg("{");
                    self.push_msg(placeholder.as_str());
                    self.push_msg("}");
                    proof {
                        assert(self.state().message =~= s1.message + braced(placeholder@));
                    }
                },
                MsgToken::TagOpening(opening) => {
                    self.push_tag_opening(opening.el, opening.self_closing);
                },
                MsgToken::TagClosing => {
                    self.push_tag_closing();
                },
                MsgToken::IcuChoice(icu) => {
                    self.push_icu(icu);
                },
            }
            assert(self.state() == apply_token(before, tok));
        }
        proof {
            assert(all.take(all.len() as int) =~= all);
        }
    }

    fn push_icu(&mut self, icu: IcuChoice<P>)
        ensures
            final(self).state() == apply_token(old(self).state(), MsgToken::IcuChoice(icu)),
        decreases icu,
    {
        let ghost whole = icu;
        let IcuChoice { value, format, cases } = icu;
        let placeholder = self.push_exp(value);
        let ghost s1 = self.state();
        proof { reveal_strlit("{"); reveal_strlit(", "); reveal_strlit(","); }
        self.push_msg("{");
        self.push_msg(placeholder.as_str());
        self.push_msg(", ");
        self.push_msg(format.as_str());
        self.push_msg(",");
        proof {
            assert(self.state().message =~= s1.message + choice_head(placeholder@, format@));
        }
        let ghost s2 = self.state();
        let ghost all = cases@;
        proof {
            assert(all.take(0) =~= Seq::<CaseOrOffset<P>>::empty());
        }
        for choice in it: cases.into_iter()
            invariant
                it.seq() == all,
                all == whole.cases@,
                whole == icu,
                self.state() == apply_cases(s2, all.take(it.index() as int)),
        {
            let ghost k = it.index() as int;
            let ghost before = self.state();
            let ghost ch = choice;
            proof {
                assert(all.take(k + 1).drop_last() =~= all.take(k));
                assert(all.take(k + 1).last() == choice);
            }
            match choice {
                CaseOrOffset::Offset(val) => {
                    let ghost t0 = self.state();
                    proof { reveal_strlit(" offset:"); }
                    self.push_msg(" offset:");
                    self.push_msg(val.as_str());
                    proof {
                        assert(self.state().message =~= t0.message + offset_text(val@));
                    }
                },
                CaseOrOffset::Case(case) => {
                    let ChoiceCase { key, tokens } = case;
                    let ghost t0 = self.state();
                    proof { reveal_strlit(" "); reveal_strlit(" {"); }
                    self.push_msg(" ");
                    self.push_msg(key.as_str());
                    self.push_msg(" {");
                    proof {
                        assert(self.state().message =~= t0.message + case_head(key@));
                        assert(whole.cases@[k] == ch);
                        assert(decreases_to!(whole => tokens));
                    }
                    self.from_tokens(tokens);
                    proof { reveal_strlit("}"); assert("}"@ =~= seq!['}']); }
                    self.push_msg("}");
                },
            }
            assert(self.state() == apply_case(before, ch));
        }
        proof {
            assert(all.take(all.len() as int) =~= all);
        }
        proof { reveal_strlit("}"); assert("}"@ =~= seq!['}']); }
        self.push_msg("}");
    }
}

/// The payloads of the elements that a token opens, in order.
pub open spec fn token_elements<P>(t: MsgToken<P>) -> Seq<P>
    decreases t,
{
    match t {
        MsgToken::TagOpening(o) => seq![o.el],
        MsgToken::IcuChoice(c) => case_list_elements(c.cases@),
        _ => Seq::empty(),
    }
}

/// The payloads of the elements that a token stream opens, in the order of a
/// pass over it, choice case bodies included.
pub open spec fn opened_elements<P>(ts: Seq<MsgToken<P>>) -> Seq<P>
    decreases ts,
{
    if ts.len() == 0 {
        Seq::empty()
    } else {
        opened_elements(ts.drop_last()) + token_elements(ts.last())
    }
}

pub open spec fn case_elements<P>(c: CaseOrOffset<P>) -> Seq<P>
    decreases c,
{
    match c {
        CaseOrOffset::Case(c) => opened_elements(c.tokens@),
        CaseOrOffset::Offset(_) => Seq::empty(),
    }
}

pub open spec fn case_list_elements<P>(cs: Seq<CaseOrOffset<P>>) -> Seq<P>
    decreases cs,
{
    if cs.len() == 0 {
        Seq::empty()
    } else {
        case_list_elements(cs.drop_last()) + case_elements(cs.last())
    }
}

/// The entries `0`, `1`, ... for `items`, in order.
pub open spec fn numbered<P>(items: Seq<P>) -> Seq<(Seq<char>, P)> {
    Seq::new(items.len(), |i: int| (decimal(i as nat), items[i]))
}

proof fn lemma_token_components<P>(s: BuildState<P>, t: MsgToken<P>, opened: Seq<P>)
    requires
        s.components == numbered(opened),
    ensures
        apply_token(s, t).components == numbered(opened + token_elements(t)),
    decreases t,
{
    match t {
        MsgToken::TagOpening(o) => {
            assert(numbered(opened + seq![o.el]) =~= numbered(opened).push(
                (decimal(opened.len()), o.el),
            ));
        },
        MsgToken::IcuChoice(c) => {
            let s1 = assign_placeholder(s, c.value).0;
            let s2 = with_text(s1, choice_head(assign_placeholder(s, c.value).1, c.format@));
            lemma_cases_components(s2, c.cases@, opened);
        },
        _ => {
            assert(opened + Seq::<P>::empty() =~= opened);
        },
    }
}

proof fn lemma_tokens_components<P>(s: BuildState<P>, ts: Seq<MsgToken<P>>, opened: Seq<P>)
    requires
        s.components == numbered(opened),
    ensures
        apply_tokens(s, ts).components == numbered(opened + opened_elements(ts)),
    decreases ts,
{
    if ts.len() == 0 {
        assert(opened + Seq::<P>::empty() =~= opened);
    } else {
        lemma_tokens_components(s, ts.drop_last(), opened);
        let mid = opened + opened_elements(ts.drop_last());
        lemma_token_components(apply_tokens(s, ts.drop_last()), ts.last(), mid);
        assert(mid + token_elements(ts.last()) =~= opened + opened_elements(ts));
    }
}

proof fn lemma_case_components<P>(s: BuildState<P>, c: CaseOrOffset<P>, opened: Seq<P>)
    requires
        s.components == numbered(opened),
    ensures
        apply_case(s, c).components == numbered(opened + case_elements(c)),
    decreases c,
{
    match c {
        CaseOrOffset::Case(cc) => {
            lemma_tokens_components(with_text(s, case_head(cc.key@)), cc.tokens@, opened);
        },
        CaseOrOffset::Offset(_) => {
            assert(opened + Seq::<P>::empty() =~= opened);
        },
    }
}

proof fn lemma_cases_components<P>(s: BuildState<P>, cs: Seq<CaseOrOffset<P>>, opened: Seq<P>)
    requires
        s.components == numbered(opened),
    ensures
        apply_cases(s, cs).components == numbered(opened + case_list_elements(cs)),
    decreases cs,
{
    if cs.len() == 0 {
        assert(opened + Seq::<P>::empty() =~= opened);
    } else {
        lemma_cases_components(s, cs.drop_last(), opened);
        let mid = opened + case_list_elements(cs.drop_last());
        lemma_case_components(apply_cases(s, cs.drop_last()), cs.last(), mid);
        assert(mid + case_elements(cs.last()) =~= opened + case_list_elements(cs));
    }
}

/// Components are numbered in the order their elements are opened over the
/// whole pass: an element opened inside a choice case takes the next number
/// after every element opened before it, not a number local to the case.
pub proof fn lemma_components_in_traversal_order<P>(tokens: Seq<MsgToken<P>>)
    ensures
        compile(tokens).components == numbered(opened_elements(tokens)),
{
    let s = initial_state::<P>();
    assert(s.components =~= numbered(Seq::<P>::empty()));
    lemma_tokens_components(s, tokens, Seq::empty());
    assert(Seq::<P>::empty() + opened_elements(tokens) =~= opened_elements(tokens));
}

/// Compiling depends on the tokens alone: the same stream compiles to the
/// same message, values and components.
pub proof fn lemma_compile_deterministic<P>(a: Seq<MsgToken<P>>, b: Seq<MsgToken<P>>)
    requires
        a == b,
    ensures
        compile(a) == compile(b),
{
}

proof fn lemma_dedup_first<P>(s: Seq<(Seq<char>, P)>)
    ensures
        forall|i: int, j: int|
            0 <= i < j < dedup_by_placeholder(s).len() ==> dedup_by_placeholder(s)[i].0
                != dedup_by_placeholder(s)[j].0,
        forall|i: int|
            0 <= i < dedup_by_placeholder(s).len() ==> exists|j: int|
                0 <= j < s.len() && s[j] == #[trigger] dedup_by_placeholder(s)[i] && !has_placeholder(
                    s.take(j),
                    s[j].0,
                ),
    decreases s.len(),
{
    if s.len() > 0 {
        let init = s.drop_last();
        lemma_dedup_first(init);
        lemma_dedup_has_placeholder(init, s.last().0);
        let d = dedup_by_placeholder(init);
        let dd = dedup_by_placeholder(s);
        assert forall|i: int| 0 <= i < dd.len() implies exists|j: int|
            0 <= j < s.len() && s[j] == #[trigger] dd[i] && !has_placeholder(s.take(j), s[j].0) by {
            if i < d.len() {
                assert(dd[i] == d[i]);
                let j = choose|j: int|
                    0 <= j < init.len() && init[j] == #[trigger] d[i] && !has_placeholder(
                        init.take(j),
                        init[j].0,
                    );
                assert(s.take(j) =~= init.take(j));
                assert(s[j] == init[j]);
            } else {
                assert(s.take(s.len() - 1) =~= init);
            }
        }
        if !has_placeholder(init, s.last().0) {
            assert forall|i: int, j: int| 0 <= i < j < dd.len() implies dd[i].0 != dd[j].0 by {
                if j == dd.len() - 1 {
                    assert(dd[i] == d[i]);
                    if d[i].0 == s.last().0 {
                        assert(has_placeholder(d, s.last().0));
                    }
                } else {
                    assert(dd[i] == d[i]);
                    assert(dd[j] == d[j]);
                }
            }
        }
    }
}

/// The values of a compiled message hold each placeholder once, and the
/// entry kept for a placeholder is its first one: named values first, then
/// indexed ones, each in the order of the pass.
pub proof fn lemma_values_first_occurrence<P>(tokens: Seq<MsgToken<P>>)
    ensures
        ({
            let s = apply_tokens(initial_state(), tokens);
            let all = s.values + s.indexed;
            let v = compile(tokens).values;
            &&& forall|i: int, j: int| 0 <= i < j < v.len() ==> v[i].0 != v[j].0
            &&& forall|i: int|
                0 <= i < v.len() ==> exists|j: int|
                    0 <= j < all.len() && all[j] == #[trigger] v[i] && !has_placeholder(
                        all.take(j),
                        all[j].0,
                    )
            &&& forall|p: Seq<char>| has_placeholder(v, p) == has_placeholder(all, p)
        }),
{
    let s = apply_tokens(initial_state(), tokens);
    let all = s.values + s.indexed;
    lemma_dedup_first(all);
    assert forall|p: Seq<char>| has_placeholder(compile(tokens).values, p) == has_placeholder(all, p) by {
        lemma_dedup_has_placeholder(all, p);
    }
}

proof fn lemma_dedup_of_distinct<P>(t: Seq<(Seq<char>, P)>)
    requires
        forall|i: int, j: int| 0 <= i < j < t.len() ==> t[i].0 != t[j].0,
    ensures
        dedup_by_placeholder(t) == t,
    decreases t.len(),
{
    if t.len() > 0 {
        let init = t.drop_last();
        lemma_dedup_of_distinct(init);
        if has_placeholder(init, t.last().0) {
            let i = choose|i: int| 0 <= i < init.len() && (#[trigger] init[i]).0 == t.last().0;
            assert(t[i] == init[i]);
        }
        assert(init.push(t.last()) =~= t);
    }
}

/// Removing repeated placeholders a second time changes nothing.
pub proof fn lemma_dedup_idempotent<P>(s: Seq<(Seq<char>, P)>)
    ensures
        dedup_by_placeholder(dedup_by_placeholder(s)) == dedup_by_placeholder(s),
{
    lemma_dedup_first(s);
    lemma_dedup_of_distinct(dedup_by_placeholder(s));
}

} // verus!
