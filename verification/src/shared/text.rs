//! Text as it travels: UTF-8 bytes in, strings out.

use vstd::prelude::*;
use vstd::utf8::*;

verus! {

/// Calls `std::str::from_utf8` and copies the text it accepts. The standard
/// library documents that the call succeeds exactly on well-formed UTF-8 and
/// that the string then consists of the characters the bytes encode.
#[verifier::external_body]
pub(crate) fn utf8_to_string(bytes: &[u8]) -> (r: Option<String>)
    ensures
        (r is Some) == valid_utf8(bytes@),
        r matches Some(s) ==> s@ == decode_utf8(bytes@),
{
    match std::str::from_utf8(bytes) {
        Ok(s) => Some(s.to_owned()),
        Err(_) => None,
    }
}

/// Formats two strings one after the other with `format!`: the result holds
/// the characters of the first, then those of the second.
#[verifier::external_body]
pub(crate) fn concat(a: &str, b: &str) -> (r: String)
    ensures
        r@ == a@ + b@,
{
    format!("{}{}", a, b)
}

/// The text that well-formed UTF-8 bytes encode; `None` for any other bytes.
pub open spec fn spec_decode_text(bytes: Seq<u8>) -> Option<Seq<char>> {
    if valid_utf8(bytes) {
        Some(decode_utf8(bytes))
    } else {
        None
    }
}

/// Decodes bytes as UTF-8 text.
pub fn decode_text(bytes: &[u8]) -> (r: Option<String>)
    ensures
        r is Some <==> spec_decode_text(bytes@) is Some,
        r matches Some(s) ==> spec_decode_text(bytes@) == Some(s@),
{
    utf8_to_string(bytes)
}

/// The UTF-8 bytes of a string, in a vector of their own.
pub fn encode_text(s: &str) -> (r: Vec<u8>)
    ensures
        r@ == encode_utf8(s@),
{
    let bytes = s.as_bytes();
    let mut out: Vec<u8> = Vec::new();
    let mut i: usize = 0;
    while i < bytes.len()
        invariant
            i <= bytes.len(),
            out@ == bytes@.subrange(0, i as int),
        decreases bytes.len() - i,
    {
        out.push(bytes[i]);
        i += 1;
        assert(out@ =~= bytes@.subrange(0, i as int));
    }
    assert(out@ =~= bytes@);
    out
}

/// The characters that ASCII bytes stand for.
pub open spec fn spec_ascii_text(bytes: Seq<u8>) -> Seq<char> {
    Seq::new(bytes.len(), |i: int| bytes[i] as char)
}

/// Bytes below 128 are text, one character to the byte.
pub proof fn ascii_is_text(bytes: Seq<u8>)
    requires
        forall|i: int| 0 <= i < bytes.len() ==> #[trigger] bytes[i] < 128,
    ensures
        spec_decode_text(bytes) == Some(spec_ascii_text(bytes)),
        encode_utf8(spec_ascii_text(bytes)) == bytes,
{
    let chars = spec_ascii_text(bytes);
    assert(is_ascii_chars(chars)) by {
        assert forall|i: int| 0 <= i < chars.len() implies '\0' <= #[trigger] chars[i]
            <= '\u{7f}' by {
            assert(bytes[i] < 128);
        }
    }
    is_ascii_chars_encode_utf8(chars);
    assert(encode_utf8(chars) =~= bytes) by {
        assert forall|i: int| 0 <= i < chars.len() implies encode_utf8(chars)[i] == bytes[i] by {
            assert(chars[i] as u8 == encode_utf8(chars)[i]);
            assert(bytes[i] < 128);
        }
    }
    text_round_trip(chars);
}

/// Encoding a text and decoding the bytes gives the text back.
pub proof fn text_round_trip(text: Seq<char>)
    ensures
        spec_decode_text(encode_utf8(text)) == Some(text),
{
    encode_utf8_valid_utf8(text);
    encode_utf8_decode_utf8(text);
}

} // verus!
