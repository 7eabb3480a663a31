//! Standard base64, through the `base64` crate.
use base64::Engine;
use vstd::prelude::*;
use vstd::string::*;

verus! {

/// The text that the standard base64 engine writes for bytes.
pub uninterp spec fn base64_encoded(bytes: Seq<u8>) -> Seq<char>;

/// What the standard base64 engine makes of a text: the bytes, or the message
/// of its error.
pub uninterp spec fn base64_decoded(text: Seq<char>) -> Result<Seq<u8>, Seq<char>>;

/// The text decodes, and to these bytes.
pub open spec fn decodes_to(text: Seq<char>, bytes: Seq<u8>) -> bool {
    base64_decoded(text) == Ok::<Seq<u8>, Seq<char>>(bytes)
}

/// The length of the base64 text of so many bytes: four characters for every
/// three bytes begun.
pub open spec fn base64_length(bytes: nat) -> nat {
    4 * ((bytes + 2) / 3)
}

/// `Engine::encode` of `base64::engine::general_purpose::STANDARD`. The text
/// depends on the bytes alone, is padded to groups of four characters, and
/// decodes to the same bytes. The call panics where the text would be longer
/// than an allocation can be.
#[verifier::external_body]
pub(crate) fn encode_base64(bytes: &Vec<u8>) -> (text: String)
    requires
        base64_length(bytes@.len()) <= isize::MAX,
    ensures
        text@ == base64_encoded(bytes@),
        text@.len() == base64_length(bytes@.len()),
        decodes_to(text@, bytes@),
{
    base64::engine::general_purpose::STANDARD.encode(bytes)
}

/// `Engine::decode` of `base64::engine::general_purpose::STANDARD`: the bytes,
/// or the error's message. Either depends on the text alone. The engine asks
/// for canonical padding and zero trailing bits, so a text that decodes is the
/// encoding of its bytes, and as long as that.
#[verifier::external_body]
pub(crate) fn decode_base64(text: &str) -> (decoded: Result<Vec<u8>, String>)
    ensures
        match decoded {
            Ok(bytes) => decodes_to(text@, bytes@) && base64_encoded(bytes@) == text@
                && text@.len() == base64_length(bytes@.len()),
            Err(message) => base64_decoded(text@) == Err::<Seq<u8>, Seq<char>>(message@),
        },
{
    match base64::engine::general_purpose::STANDARD.decode(text) {
        Ok(bytes) => Ok(bytes),
        Err(error) => Err(error.to_string()),
    }
}

} // verus!
