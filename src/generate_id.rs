//! Short, content-derived message identifiers.

use sha2::Digest;
use vstd::prelude::*;
use vstd::string::StringExecFns;
use vstd::utf8::is_ascii_chars;

verus! {

/// The SHA-256 digest of the UTF-8 encoding of `s`.
pub uninterp spec fn sha256_of(s: Seq<char>) -> Seq<u8>;

/// The standard base64 encoding of `b`, with `=` padding.
pub uninterp spec fn base64_of(b: Seq<u8>) -> Seq<char>;

/// Relies on sha2's `Sha256::digest`: the 32-byte SHA-256 digest of the
/// text's UTF-8 bytes.
#[verifier::external_body]
fn sha256_digest(s: &str) -> (r: Vec<u8>)
    ensures
        r@ == sha256_of(s@),
        r@.len() == 32,
{
    sha2::Sha256::digest(s.as_bytes()).to_vec()
}

/// Relies on data_encoding's `BASE64.encode`: padded standard base64, four
/// ASCII characters for each started group of three bytes. It panics on
/// inputs longer than `usize::MAX / 512` bytes.
#[verifier::external_body]
fn base64_encode(b: &[u8]) -> (r: String)
    requires
        b@.len() <= usize::MAX / 512,
    ensures
        r@ == base64_of(b@),
        r@.len() == 4 * ((b@.len() + 2) / 3),
        is_ascii_chars(r@),
{
    data_encoding::BASE64.encode(b)
}

/// Relies on `String::truncate`: it keeps the first `n` bytes, and leaves a
/// shorter string as it is. In ASCII text bytes are characters, and every
/// position is a character boundary, so it never panics there.
#[verifier::external_body]
fn truncate_ascii(s: &mut String, n: usize)
    requires
        is_ascii_chars(old(s)@),
    ensures
        final(s)@ == (if n < old(s)@.len() { old(s)@.take(n as int) } else { old(s)@ }),
{
    s.truncate(n)
}

/// The text that an identifier is derived from: the message, the unit
/// separator U+001F, and the context.
pub open spec fn id_source(message: Seq<char>, context: Seq<char>) -> Seq<char> {
    message + seq!['\u{1F}'] + context
}

/// The identifier of a message in a context: the first six characters of
/// the base64 encoding of the SHA-256 digest of `id_source`.
pub open spec fn message_id(message: Seq<char>, context: Seq<char>) -> Seq<char> {
    base64_of(sha256_of(id_source(message, context))).take(6)
}

/// Derives the identifier of `message` in `context` (empty for none).
pub fn generate_message_id(message: &str, context: &str) -> (r: String)
    ensures
        r@ == message_id(message@, context@),
        r@.len() == 6,
{
    let mut source = String::from_str(message);
    proof {
        reveal_strlit("\u{1F}");
        assert("\u{1F}"@ =~= seq!['\u{1F}']);
    }
    source.append("\u{1F}");
    source.append(context);
    proof {
        assert(source@ =~= id_source(message@, context@));
    }
    let digest = sha256_digest(source.as_str());
    let mut id = base64_encode(digest.as_slice());
    truncate_ascii(&mut id, 6);
    id
}

} // verus!
