//! Base64 armouring of binary message bodies, done by the `base64` crate.

use vstd::prelude::*;

verus! {

// What `base64::decode` makes of the UTF-8 bytes of `text`: the decoded
// bytes, or `None` where it reports a `DecodeError`.
pub uninterp spec fn base64_decoded(text: Seq<char>) -> Option<Seq<u8>>;

// The text that `base64::encode` produces for `bytes`.
pub uninterp spec fn base64_encoded(bytes: Seq<u8>) -> Seq<char>;

/// `base64::DecodeError`, what the decoder reports of a text that is no
/// base64. The codec only learns from it that decoding failed.
#[verifier::external_type_specification]
#[verifier::external_body]
pub struct ExDecodeError(base64::DecodeError);

/// The characters of the standard base64 alphabet, with the padding sign.
pub open spec fn is_base64_char(c: char) -> bool {
    ||| 'A' <= c <= 'Z'
    ||| 'a' <= c <= 'z'
    ||| '0' <= c <= '9'
    ||| c == '+'
    ||| c == '/'
    ||| c == '='
}

/// Number of characters in the padded base64 text of `len` bytes.
pub open spec fn armored_len(len: nat) -> nat {
    4 * ((len + 2) / 3)
}

/// Byte strings short enough for both directions of the codec: their
/// base64 text is one that the decoder takes.
pub open spec fn armorable(len: nat) -> bool {
    armored_len(len) <= usize::MAX / 2
}

/// Texts short enough for the decoder: at most `usize::MAX / 2` bytes of
/// UTF-8, the most that a buffer can hold.
pub open spec fn dearmorable(text: Seq<char>) -> bool {
    vstd::utf8::encode_utf8(text).len() <= usize::MAX / 2
}

/// `base64::decode` with the standard alphabet. The result is named by
/// [`base64_decoded`]: success carries exactly the named bytes, and an error
/// is returned exactly where the name is `None`. The decoder panics where
/// its length arithmetic overflows or its buffer would exceed what a buffer
/// can hold; an input of at most `usize::MAX / 2` bytes causes neither.
#[verifier::external_body]
pub(crate) fn decode_base64(text: &str) -> (res: Result<Vec<u8>, base64::DecodeError>)
    requires
        dearmorable(text@),
    ensures
        match res {
            Ok(bytes) => base64_decoded(text@) == Some(bytes@),
            Err(_) => base64_decoded(text@) is None,
        },
{
    base64::decode(text)
}

/// `base64::encode` with the standard alphabet and padding. The result is
/// named by [`base64_encoded`]. Of it the contract claims what the crate
/// shows: it has four characters for every started group of three bytes, all
/// of them from the standard alphabet or the padding sign, and decoding it
/// gives the input back. The encoder panics where the length of the text
/// overflows or exceeds what a buffer can hold, so such inputs are excluded.
#[verifier::external_body]
pub(crate) fn encode_base64(bytes: &[u8]) -> (res: String)
    requires
        armorable(bytes@.len()),
    ensures
        res@ == base64_encoded(bytes@),
        res@.len() == armored_len(bytes@.len()),
        forall|i: int| 0 <= i < res@.len() ==> is_base64_char(#[trigger] res@[i]),
        base64_decoded(res@) == Some(bytes@),
{
    base64::encode(bytes)
}

/// What [`encode_base64`] establishes of the text it returns for `bytes`.
pub open spec fn armor_round_trips(bytes: Seq<u8>) -> bool {
    let text = base64_encoded(bytes);
    &&& text.len() == armored_len(bytes.len())
    &&& forall|i: int| 0 <= i < text.len() ==> is_base64_char(#[trigger] text[i])
    &&& base64_decoded(text) == Some(bytes)
}

/// Base64 text is ASCII, so its UTF-8 form is as long as the text.
pub proof fn lemma_armor_is_ascii(text: Seq<char>)
    requires
        forall|i: int| 0 <= i < text.len() ==> is_base64_char(#[trigger] text[i]),
    ensures
        vstd::utf8::is_ascii_chars(text),
        vstd::utf8::encode_utf8(text).len() == text.len(),
{
    assert(vstd::utf8::is_ascii_chars(text)) by {
        assert forall|i: int| 0 <= i < text.len() implies '\0' <= #[trigger] text[i] <= '\u{7f}' by {
            assert(is_base64_char(text[i]));
        }
    }
    vstd::utf8::is_ascii_chars_encode_utf8(text);
}

} // verus!
