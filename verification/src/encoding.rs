//! Records on the wire: bytes as base64 text.
use base64::engine::general_purpose::STANDARD;
use base64::Engine as _;
use vstd::prelude::*;

verus! {

/// The base64 text of `bytes`, in the standard alphabet with padding.
pub uninterp spec fn base64_text(bytes: Seq<u8>) -> Seq<char>;

/// The bytes that `text` is the base64 of, or, where it is the base64 of
/// none, what the decoder says of it.
pub uninterp spec fn base64_bytes(text: Seq<char>) -> Result<Seq<u8>, Seq<char>>;

/// So many bytes have a base64 text that fits in memory.
pub open spec fn encodable(len: nat) -> bool {
    (len + 2) / 3 * 4 <= isize::MAX
}

/// `Engine::encode` of the standard engine. Its text decodes to the same
/// bytes again. It panics where the text would be longer than any allocation.
#[verifier::external_body]
pub(crate) fn encode(bytes: &[u8]) -> (text: String)
    requires
        encodable(bytes@.len()),
    ensures
        text@ == base64_text(bytes@),
        base64_bytes(text@) is Ok,
        base64_bytes(text@)->Ok_0 == bytes@,
{
    STANDARD.encode(bytes)
}

/// `Engine::decode` of the standard engine, its error as the text it displays.
/// Only canonical base64 is accepted: the text is then the one that the bytes
/// encode to, and it was held in memory, so that they can be encoded again.
#[verifier::external_body]
pub(crate) fn decode(text: &str) -> (bytes: Result<Vec<u8>, String>)
    ensures
        match bytes {
            Ok(bytes) => {
                &&& base64_bytes(text@) matches Ok(found) && found == bytes@
                &&& base64_text(bytes@) == text@
                &&& encodable(bytes@.len())
            },
            Err(why) => base64_bytes(text@) matches Err(said) && said == why@,
        },
{
    STANDARD.decode(text).map_err(|e| e.to_string())
}

/// What decoding came to, in bytes and characters.
pub open spec fn decoded_view(decoded: Result<Vec<u8>, String>) -> Result<Seq<u8>, Seq<char>> {
    match decoded {
        Ok(bytes) => Ok(bytes@),
        Err(why) => Err(why@),
    }
}

/// `bytes` go to base64 and come back the same.
pub open spec fn carried(bytes: Seq<u8>) -> bool {
    base64_bytes(base64_text(bytes)) matches Ok(back) && back == bytes
}

} // verus!
