//! The token vocabulary that a front-end hands to the message builder.
//!
//! Payloads of type `P` (expressions, opened elements) are carried through
//! unexamined: the builder only moves them into its output tables.

use vstd::prelude::*;

verus! {

/// The shape of an interpolated expression, as far as placeholder naming needs it.
pub enum Expression<P> {
    /// A bare reference to a named binding, such as `name`.
    Ident { name: String, value: P },
    /// A one-entry labelling object in shorthand form, `{name}`; `value` is the
    /// reference to the binding `name`.
    Shorthand { name: String, value: P },
    /// A one-entry labelling object with an explicit label, `{name: expr}`;
    /// `value` is `expr`.
    Labeled { name: String, value: P },
    /// Any other expression: calls, member accesses, literals, spreads, other objects.
    Other { value: P },
}

/// An opened markup element.
pub struct TagOpening<P> {
    pub self_closing: bool,
    pub el: P,
}

/// A plural, select or selectordinal construct.
pub struct IcuChoice<P> {
    pub value: Expression<P>,
    /// `plural`, `select` or `selectordinal`
    pub format: String,
    pub cases: Vec<CaseOrOffset<P>>,
}

/// One entry of a choice: a labelled case body, or an `offset:` directive.
pub enum CaseOrOffset<P> {
    Case(ChoiceCase<P>),
    Offset(String),
}

/// A case of a choice: its ICU key and the tokens of its body.
pub struct ChoiceCase<P> {
    pub key: String,
    pub tokens: Vec<MsgToken<P>>,
}

/// A token of a message, in source order.
pub enum MsgToken<P> {
    String(String),
    Expression(Expression<P>),
    TagOpening(TagOpening<P>),
    TagClosing,
    IcuChoice(IcuChoice<P>),
}

} // verus!
