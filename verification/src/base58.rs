//! Base58 text, the encoding of instruction payloads on the wire.

use crate::error::CarbonError;
use vstd::prelude::*;

verus! {

#[verifier::external_type_specification]
#[verifier::external_body]
pub struct ExDecodeError(bs58::decode::Error);

/// The bytes that a base58 text encodes, if it is well formed.
pub uninterp spec fn base58_decoded(text: Seq<char>) -> Option<Seq<u8>>;

/// Calls `bs58::decode` on the text and collects the bytes with `into_vec`.
/// The outcome depends on the text alone: decoding succeeds exactly on the
/// texts for which [`base58_decoded`] holds bytes, and then gives them.
#[verifier::external_body]
fn outside_decode(text: &str) -> (outcome: Result<Vec<u8>, bs58::decode::Error>)
    ensures
        match outcome {
            Ok(bytes) => base58_decoded(text@) == Some(bytes@),
            Err(_) => base58_decoded(text@) is None,
        },
{
    bs58::decode(text).into_vec()
}

/// Decodes a base58 text into the bytes it encodes.
pub fn decode_base58(text: &str) -> (outcome: Result<Vec<u8>, CarbonError>)
    ensures
        match outcome {
            Ok(bytes) => base58_decoded(text@) == Some(bytes@),
            Err(e) => base58_decoded(text@) is None && e == CarbonError::InvalidInstructionData,
        },
{
    match outside_decode(text) {
        Ok(bytes) => Ok(bytes),
        Err(_) => Err(CarbonError::InvalidInstructionData),
    }
}

} // verus!
