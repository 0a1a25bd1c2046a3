use carbon_core::base58::decode_base58;
use carbon_core::error::CarbonError;
use carbon_core::pubkey::{parse_pubkey, parse_pubkey_or_default, unwrap_or_default, Pubkey};

const LOADER_TEXT: &str = "BPFLoaderUpgradeab1e11111111111111111111111";
const LOADER_BYTES: [u8; 32] = [
    2, 168, 246, 145, 78, 136, 161, 176, 226, 16, 21, 62, 247, 99, 174, 43, 0, 194, 185, 61, 22,
    193, 36, 210, 192, 83, 122, 16, 4, 128, 0, 0,
];

#[test]
fn default_pubkey_is_all_zero() {
    assert_eq!(Pubkey::default().to_bytes(), [0u8; 32]);
}

#[test]
fn new_from_array_keeps_the_bytes() {
    let mut bytes = [0u8; 32];
    bytes[0] = 7;
    bytes[31] = 9;
    assert_eq!(Pubkey::new_from_array(bytes).to_bytes(), bytes);
}

#[test]
fn parse_pubkey_reads_base58_text() {
    assert_eq!(parse_pubkey(LOADER_TEXT), Some(Pubkey::new_from_array(LOADER_BYTES)));
}

#[test]
fn parse_pubkey_reads_the_all_ones_text_as_zero_bytes() {
    let key = parse_pubkey("11111111111111111111111111111111");
    assert_eq!(key, Some(Pubkey::new_from_array([0u8; 32])));
}

#[test]
fn parse_pubkey_refuses_text_that_is_no_address() {
    assert_eq!(parse_pubkey("not an address"), None);
    assert_eq!(parse_pubkey(""), None);
    // Valid base58, but too short for an address.
    assert_eq!(parse_pubkey("he11owor1d"), None);
    // Longer than any address.
    assert_eq!(parse_pubkey("BPFLoaderUpgradeab1e11111111111111111111111111"), None);
}

#[test]
fn parse_pubkey_or_default_degrades_on_bad_text() {
    assert_eq!(parse_pubkey_or_default("not an address"), Pubkey::default());
    assert_eq!(parse_pubkey_or_default(LOADER_TEXT), Pubkey::new_from_array(LOADER_BYTES));
}

#[test]
fn unwrap_or_default_keeps_a_parsed_address() {
    let key = Pubkey::new_from_array([5u8; 32]);
    assert_eq!(unwrap_or_default(Some(key)), key);
    assert_eq!(unwrap_or_default(None), Pubkey::default());
}

#[test]
fn decode_base58_gives_the_encoded_bytes() {
    assert_eq!(
        decode_base58("he11owor1d"),
        Ok(vec![0x04, 0x30, 0x5e, 0x2b, 0x24, 0x73, 0xf0, 0x58])
    );
    assert_eq!(decode_base58(""), Ok(vec![]));
    assert_eq!(decode_base58("11"), Ok(vec![0, 0]));
}

#[test]
fn decode_base58_fails_on_text_outside_the_alphabet() {
    assert_eq!(decode_base58("0OIl"), Err(CarbonError::InvalidInstructionData));
    assert_eq!(decode_base58("he11o wor1d"), Err(CarbonError::InvalidInstructionData));
}

#[test]
fn error_messages_name_the_failure() {
    assert_eq!(
        CarbonError::MissingAccountInTransaction.message(),
        "missing account in transaction"
    );
    assert_eq!(
        CarbonError::InvalidInstructionData.message(),
        "instruction data is not valid base58"
    );
}
