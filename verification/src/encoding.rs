//! Base64 without padding, as the text form of a container's byte fields.
//!
//! The encoding itself is the `base64` crate's; what this module states about
//! it is believed, not proved.

use crate::error::Error;
use vstd::prelude::*;

verus! {

/// The text that `base64::encode_config` returns for `bytes` under
/// `STANDARD_NO_PAD`.
pub uninterp spec fn base64_text(bytes: Seq<u8>) -> Seq<char>;

/// What `base64::decode_config` makes of `text` under `STANDARD_NO_PAD`: the
/// decoded bytes, or `None` where it reports a `DecodeError`.
pub uninterp spec fn base64_bytes(text: Seq<char>) -> Option<Seq<u8>>;

/// The length of the unpadded text for so many bytes: four symbols for every
/// three bytes, and two or three for one or two bytes left over.
pub open spec fn base64_len(bytes: nat) -> nat {
    ((4 * bytes + 2) / 3) as nat
}

/// One of the 64 symbols of the standard alphabet.
pub open spec fn is_base64_symbol(c: char) -> bool {
    ||| 'A' <= c <= 'Z'
    ||| 'a' <= c <= 'z'
    ||| '0' <= c <= '9'
    ||| c == '+'
    ||| c == '/'
}

/// Every character of `text` is a symbol of the standard alphabet.
pub open spec fn is_base64_alphabet(text: Seq<char>) -> bool {
    forall|i: int| 0 <= i < text.len() ==> is_base64_symbol(#[trigger] text[i])
}

/// The error of `base64::decode_config`. Nothing is read from it.
#[verifier::external_type_specification]
#[verifier::external_body]
pub struct ExDecodeError(::base64::DecodeError);

/// Calls `base64::encode_config` with `STANDARD_NO_PAD`.
///
/// Believed of it: the result is a function of the bytes alone; it is made of
/// symbols of the standard alphabet only (this configuration writes no `=`),
/// four for every three bytes and two or three for one or two bytes left
/// over; and `base64::decode_config` under the same configuration turns it
/// back into the bytes it was made from.
#[verifier::external_body]
pub(crate) fn base64_encode(bytes: &[u8]) -> (text: String)
    ensures
        text@ == base64_text(bytes@),
        text@.len() == base64_len(bytes@.len()),
        is_base64_alphabet(text@),
        base64_bytes(text@) == Some(bytes@),
{
    ::base64::encode_config(bytes, ::base64::STANDARD_NO_PAD)
}

/// Calls `base64::decode_config` with `STANDARD_NO_PAD`.
///
/// Believed of it: whether it succeeds, and with which bytes, is a function
/// of the text alone.
#[verifier::external_body]
fn base64_decode(text: &str) -> (decoded: Result<Vec<u8>, ::base64::DecodeError>)
    ensures
        match decoded {
            Ok(bytes) => base64_bytes(text@) == Some(bytes@),
            Err(_) => base64_bytes(text@) is None,
        },
{
    ::base64::decode_config(text, ::base64::STANDARD_NO_PAD)
}

/// Decodes unpadded base64. Text that is not base64 is a malformed container.
pub fn unbase64(text: &str) -> (decoded: Result<Vec<u8>, Error>)
    ensures
        match decoded {
            Ok(bytes) => base64_bytes(text@) == Some(bytes@),
            Err(e) => e == Error::MalformedContainer && base64_bytes(text@) is None,
        },
{
    match base64_decode(text) {
        Ok(bytes) => Ok(bytes),
        Err(_) => Err(Error::MalformedContainer),
    }
}

} // verus!
