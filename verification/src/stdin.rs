//! Bounded reading of a document from standard input.
//!
//! The caller reads at most [`stdin_read_limit`] bytes; this module decides
//! whether what was read is accepted and decodes it.

use vstd::prelude::*;

verus! {

/// Maximum bytes accepted from stdin (8 MiB).
pub const MAX_STDIN_BYTES: usize = 8 * 1024 * 1024;

/// Why a document read from stdin is refused.
#[derive(Clone, Copy, Debug, PartialEq, Eq, Structural)]
pub enum StdinError {
    /// More than `max_bytes` bytes arrived.
    TooLarge { max_bytes: usize },
    /// The bytes are not valid UTF-8.
    InvalidUtf8,
}

/// `String::from_utf8`: the text that `bytes` encode when they are valid
/// UTF-8, and `None` when they are not.
#[verifier::external_body]
fn string_from_utf8(bytes: Vec<u8>) -> (text: Option<String>)
    ensures
        match text {
            Some(s) => vstd::utf8::valid_utf8(bytes@) && s@ == vstd::utf8::decode_utf8(bytes@),
            None => !vstd::utf8::valid_utf8(bytes@),
        },
{
    String::from_utf8(bytes).ok()
}

/// How many bytes to read from stdin to tell whether more than `max_bytes`
/// are there: `max_bytes + 1`, or `u64::MAX` when that does not fit in a
/// `u64` (no reader can then hand over more than `max_bytes` bytes anyway).
pub fn stdin_read_limit(max_bytes: usize) -> (limit: u64)
    ensures
        max_bytes + 1 <= u64::MAX ==> limit == max_bytes + 1,
        max_bytes + 1 > u64::MAX ==> limit == u64::MAX,
{
    assert(max_bytes <= u64::MAX);
    let wide = max_bytes as u64;
    wide.saturating_add(1)
}

/// Accepts the bytes read from stdin (at most the read limit of
/// `max_bytes`): refused when more than `max_bytes` arrived, or when they are
/// not valid UTF-8; otherwise the text they encode.
pub fn read_stdin_limited(read: Vec<u8>, max_bytes: usize) -> (text: Result<String, StdinError>)
    ensures
        read@.len() > max_bytes ==> text == Err::<String, StdinError>(
            StdinError::TooLarge { max_bytes },
        ),
        read@.len() <= max_bytes && !vstd::utf8::valid_utf8(read@) ==> text == Err::<
            String,
            StdinError,
        >(StdinError::InvalidUtf8),
        read@.len() <= max_bytes && vstd::utf8::valid_utf8(read@) ==> text is Ok
            && text->Ok_0@ == vstd::utf8::decode_utf8(read@) && vstd::utf8::encode_utf8(
            text->Ok_0@,
        ) == read@,
{
    if read.len() > max_bytes {
        return Err(StdinError::TooLarge { max_bytes });
    }
    proof {
        if vstd::utf8::valid_utf8(read@) {
            vstd::utf8::decode_utf8_encode_utf8(read@);
        }
    }
    match string_from_utf8(read) {
        Some(s) => Ok(s),
        None => Err(StdinError::InvalidUtf8),
    }
}

/// Any text within the limit comes back unchanged: its UTF-8 bytes are
/// accepted, and they decode to the text itself.
pub proof fn law_text_round_trips(text: Seq<char>)
    ensures
        vstd::utf8::valid_utf8(vstd::utf8::encode_utf8(text)),
        vstd::utf8::decode_utf8(vstd::utf8::encode_utf8(text)) == text,
{
    vstd::utf8::encode_utf8_valid_utf8(text);
    vstd::utf8::encode_utf8_decode_utf8(text);
}

} // verus!
