//! Account addresses.

use solana_sdk::pubkey::ParsePubkeyError;
use std::str::FromStr;
use vstd::prelude::*;

verus! {

/// The number of bytes in an account address.
pub const PUBKEY_BYTES: usize = 32;

/// The address of an account: 32 raw bytes.
#[derive(Clone, Copy, Debug, PartialEq, Eq, Hash)]
pub struct Pubkey {
    pub bytes: [u8; 32],
}

impl View for Pubkey {
    type V = Seq<u8>;

    open spec fn view(&self) -> Seq<u8> {
        self.bytes@
    }
}

impl DeepView for Pubkey {
    type V = Seq<u8>;

    open spec fn deep_view(&self) -> Seq<u8> {
        self.bytes@
    }
}

/// The bytes of the address that stands in for one that could not be found or
/// read: thirty-two zero bytes.
pub open spec fn default_bytes() -> Seq<u8> {
    Seq::new(32, |i: int| 0u8)
}

impl Pubkey {
    /// The address made of the given bytes.
    pub fn new_from_array(bytes: [u8; 32]) -> (key: Pubkey)
        ensures
            key.bytes == bytes,
    {
        Pubkey { bytes }
    }

    /// The bytes of the address.
    pub fn to_bytes(&self) -> (bytes: [u8; 32])
        ensures
            bytes == self.bytes,
    {
        self.bytes
    }
}

impl Default for Pubkey {
    /// The all-zero address.
    fn default() -> (key: Pubkey)
        ensures
            key@ == default_bytes(),
    {
        let key = Pubkey { bytes: [0u8; 32] };
        assert(key@ =~= default_bytes());
        key
    }
}

#[verifier::external_type_specification]
#[verifier::external_body]
pub struct ExParsePubkeyError(ParsePubkeyError);

/// The bytes that the text of an address stands for, if it stands for any.
pub uninterp spec fn parsed_pubkey(text: Seq<char>) -> Option<Seq<u8>>;

/// Calls `solana_sdk::pubkey::Pubkey::from_str`. The outcome depends on the
/// text alone: the parse succeeds exactly on the texts for which
/// [`parsed_pubkey`] holds bytes, and then gives the address made of them.
#[verifier::external_body]
fn outside_from_str(text: &str) -> (outcome: Result<Pubkey, ParsePubkeyError>)
    ensures
        match outcome {
            Ok(key) => parsed_pubkey(text@) == Some(key@),
            Err(_) => parsed_pubkey(text@) is None,
        },
{
    solana_sdk::pubkey::Pubkey::from_str(text).map(|key| Pubkey { bytes: key.to_bytes() })
}

/// The address that a parse outcome stands for: the parsed address, or the
/// all-zero address where the text could not be read.
pub open spec fn pubkey_or_default(parsed: Option<Seq<u8>>) -> Seq<u8> {
    match parsed {
        Some(bytes) => bytes,
        None => default_bytes(),
    }
}

/// Reads an address from its text.
pub fn parse_pubkey(text: &str) -> (key: Option<Pubkey>)
    ensures
        key.deep_view() == parsed_pubkey(text@),
{
    match outside_from_str(text) {
        Ok(key) => Some(key),
        Err(_) => None,
    }
}

/// Replaces an unreadable address by the all-zero address.
pub fn unwrap_or_default(parsed: Option<Pubkey>) -> (key: Pubkey)
    ensures
        key@ == pubkey_or_default(parsed.deep_view()),
{
    match parsed {
        Some(key) => key,
        None => Pubkey::default(),
    }
}

/// Reads an address from its text; text that is no address gives the all-zero
/// address.
pub fn parse_pubkey_or_default(text: &str) -> (key: Pubkey)
    ensures
        key@ == pubkey_or_default(parsed_pubkey(text@)),
{
    unwrap_or_default(parse_pubkey(text))
}

} // verus!
