//! Message descriptors: a compiled message together with its identifier.

use vstd::prelude::*;

use crate::builder::{compile, table_is, MessageBuilder, MessageBuilderResult, ValueWithPlaceholder};
use crate::generate_id::{generate_message_id, message_id};
use crate::tokens::MsgToken;

verus! {

/// What a runtime translation lookup receives for one message.
pub struct MessageDescriptor<P> {
    pub id: String,
    /// the message text; left out when non-essential fields are stripped
    pub message: Option<String>,
    pub values: Option<Vec<ValueWithPlaceholder<P>>>,
    pub components: Option<Vec<ValueWithPlaceholder<P>>>,
}

/// Puts a compiled message and its identifier together; the message text is
/// left out when `strip_non_essential_fields` is set.
pub fn assemble_descriptor<P>(parsed: MessageBuilderResult<P>, id: String, strip_non_essential_fields: bool) -> (r: MessageDescriptor<P>)
    ensures
        r.id@ == id@,
        r.message is None <==> strip_non_essential_fields,
        r.message matches Some(m) ==> m@ == parsed.message_str@,
        r.values == parsed.values,
        r.components == parsed.components,
{
    let MessageBuilderResult { message_str, values, components } = parsed;
    let message = if strip_non_essential_fields {
        None
    } else {
        Some(message_str)
    };
    MessageDescriptor { id, message, values, components }
}

/// Compiles a token stream into a descriptor. Without an explicit `id` the
/// identifier is derived from the compiled message and `context`.
pub fn create_message_descriptor_from_tokens<P>(
    tokens: Vec<MsgToken<P>>,
    id: Option<String>,
    context: &str,
    strip_non_essential_fields: bool,
) -> (r: MessageDescriptor<P>)
    ensures
        r.id@ == (match id {
            Some(i) => i@,
            None => message_id(compile(tokens@).message, context@),
        }),
        r.message is None <==> strip_non_essential_fields,
        r.message matches Some(m) ==> m@ == compile(tokens@).message,
        table_is(r.values, compile(tokens@).values),
        table_is(r.components, compile(tokens@).components),
{
    let parsed = MessageBuilder::parse(tokens);
    let id = match id {
        Some(i) => i,
        None => generate_message_id(parsed.message_str.as_str(), context),
    };
    assemble_descriptor(parsed, id, strip_non_essential_fields)
}

} // verus!
