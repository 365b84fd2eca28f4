//! Bytes as text: base64 and UTF-8.
use base64::engine::general_purpose::STANDARD;
use base64::Engine;
use vstd::prelude::*;
use vstd::utf8::*;

verus! {

/// The text that `base64` writes for `bytes`, in the standard alphabet with padding.
pub uninterp spec fn base64_encoded(bytes: Seq<u8>) -> Seq<char>;

/// The bytes that `base64` reads from `text`, in the standard alphabet with padding; where it refuses the
/// text, what its error says.
pub uninterp spec fn base64_decoded(text: Seq<char>) -> Result<Seq<u8>, Seq<char>>;

/// What the error of `String::from_utf8` says of `bytes` that are no UTF-8.
pub uninterp spec fn utf8_error(bytes: Seq<u8>) -> Seq<char>;

/// `Engine::encode` of `base64`, by the engine `STANDARD`. The text is a function of the bytes, and
/// the same engine reads the bytes back from it. The standard alphabet holds no `_`.
#[verifier::external_body]
pub(crate) fn base64_encode(bytes: &[u8]) -> (text: String)
    ensures
        text@ == base64_encoded(bytes@),
        base64_decoded(text@) is Ok,
        base64_decoded(text@)->Ok_0 == bytes@,
        !text@.contains('_'),
{
    STANDARD.encode(bytes)
}

/// `Engine::decode` of `base64`, by the engine `STANDARD`, its error as the text that `Display` writes.
/// The outcome is a function of the text. The engine asks for the canonical padding and for trailing bits
/// of zero, so a text that it reads is the one that it writes for the same bytes. It reads no `_`.
#[verifier::external_body]
pub(crate) fn base64_decode(text: &str) -> (decoded: Result<Vec<u8>, String>)
    ensures
        match decoded {
            Ok(bytes) => {
                &&& base64_decoded(text@) is Ok
                &&& base64_decoded(text@)->Ok_0 == bytes@
                &&& base64_encoded(bytes@) == text@
                &&& !text@.contains('_')
            },
            Err(message) => base64_decoded(text@) is Err && base64_decoded(text@)->Err_0
                == message@,
        },
{
    match STANDARD.decode(text) {
        Ok(bytes) => Ok(bytes),
        Err(error) => Err(error.to_string()),
    }
}

/// `String::from_utf8` of std, its error as the text that `Display` writes: the string whose UTF-8
/// encoding the bytes are, and an error that is a function of the bytes where they are no UTF-8.
#[verifier::external_body]
pub(crate) fn string_from_utf8(bytes: Vec<u8>) -> (text: Result<String, String>)
    ensures
        match text {
            Ok(s) => valid_utf8(bytes@) && s@ == decode_utf8(bytes@),
            Err(message) => !valid_utf8(bytes@) && message@ == utf8_error(bytes@),
        },
{
    match String::from_utf8(bytes) {
        Ok(text) => Ok(text),
        Err(error) => Err(error.to_string()),
    }
}

/// A result with its bytes and its text as sequences.
pub open spec fn decoded_view(decoded: Result<Vec<u8>, String>) -> Result<Seq<u8>, Seq<char>> {
    match decoded {
        Ok(bytes) => Ok(bytes@),
        Err(message) => Err(message@),
    }
}

/// Nothing is lost of a result that is taken as sequences.
pub proof fn decoded_results_are_seen_whole(bytes: Vec<u8>, message: String)
    ensures
        decoded_view(Ok(bytes)) == Ok::<Seq<u8>, Seq<char>>(bytes@),
        decoded_view(Err(message)) == Err::<Seq<u8>, Seq<char>>(message@),
{
}

} // verus!
