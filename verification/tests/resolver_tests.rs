use carbon_core::instruction::AccountMeta;
use carbon_core::message::{
    CompiledInstruction, LegacyMessage, LoadedAddresses, MessageHeader, V0Message,
    VersionedMessage,
};
use carbon_core::pubkey::Pubkey;
use carbon_core::resolver::{account_key, resolve, resolve_instruction};

const LOADER_BYTES: [u8; 32] = [
    2, 168, 246, 145, 78, 136, 161, 176, 226, 16, 21, 62, 247, 99, 174, 43, 0, 194, 185, 61, 22,
    193, 36, 210, 192, 83, 122, 16, 4, 128, 0, 0,
];

fn key(n: u8) -> Pubkey {
    Pubkey::new_from_array([n; 32])
}

fn header(signatures: u8, readonly_signed: u8, readonly_unsigned: u8) -> MessageHeader {
    MessageHeader {
        num_required_signatures: signatures,
        num_readonly_signed_accounts: readonly_signed,
        num_readonly_unsigned_accounts: readonly_unsigned,
    }
}

fn compiled(program: u8, accounts: Vec<u8>, data: Vec<u8>) -> CompiledInstruction {
    CompiledInstruction { program_id_index: program, accounts, data }
}

/// Keys 1..=5: two signers (the second read-only), then three non-signers
/// (the last read-only). The one instruction runs key 5.
fn legacy_message() -> VersionedMessage {
    VersionedMessage::Legacy(LegacyMessage {
        header: header(2, 1, 1),
        account_keys: vec![key(1), key(2), key(3), key(4), key(5)],
        instructions: vec![compiled(4, vec![0, 1, 2, 3], vec![9, 9])],
    })
}

/// Static keys 1..=3: one signer, one writable non-signer, one read-only
/// non-signer that the one instruction runs.
fn v0_message() -> VersionedMessage {
    VersionedMessage::V0(V0Message {
        header: header(1, 0, 1),
        account_keys: vec![key(1), key(2), key(3)],
        instructions: vec![compiled(2, vec![0, 1, 3, 4, 5], vec![7])],
    })
}

fn loaded() -> LoadedAddresses {
    LoadedAddresses { writable: vec![key(10), key(11)], readonly: vec![key(20)] }
}

fn none_loaded() -> LoadedAddresses {
    LoadedAddresses::new()
}

#[test]
fn resolve_legacy_writable_signer() {
    let account = resolve(&legacy_message(), &none_loaded(), 0);
    assert_eq!(account, AccountMeta { pubkey: key(1), is_signer: true, is_writable: true });
}

#[test]
fn resolve_legacy_readonly_signer() {
    let account = resolve(&legacy_message(), &none_loaded(), 1);
    assert_eq!(account, AccountMeta { pubkey: key(2), is_signer: true, is_writable: false });
}

#[test]
fn resolve_legacy_writable_non_signer() {
    let account = resolve(&legacy_message(), &none_loaded(), 3);
    assert_eq!(account, AccountMeta { pubkey: key(4), is_signer: false, is_writable: true });
}

#[test]
fn resolve_legacy_readonly_non_signer() {
    let account = resolve(&legacy_message(), &none_loaded(), 4);
    assert_eq!(account, AccountMeta { pubkey: key(5), is_signer: false, is_writable: false });
}

#[test]
fn resolve_legacy_index_past_the_keys_gives_the_zero_address() {
    let account = resolve(&legacy_message(), &none_loaded(), 5);
    assert_eq!(
        account,
        AccountMeta { pubkey: Pubkey::default(), is_signer: false, is_writable: false }
    );
    let far = resolve(&legacy_message(), &none_loaded(), 255);
    assert_eq!(far.pubkey, Pubkey::default());
}

#[test]
fn resolve_legacy_ignores_loaded_addresses() {
    let account = resolve(&legacy_message(), &loaded(), 5);
    assert_eq!(account.pubkey, Pubkey::default());
    assert!(!account.is_writable);
}

#[test]
fn resolve_legacy_demotes_a_writable_program() {
    // Key 4 sits in the writable window, but an instruction runs it.
    let message = VersionedMessage::Legacy(LegacyMessage {
        header: header(2, 1, 1),
        account_keys: vec![key(1), key(2), key(3), key(4), key(5)],
        instructions: vec![compiled(3, vec![0], vec![])],
    });
    assert!(!resolve(&message, &none_loaded(), 3).is_writable);
    assert!(resolve(&message, &none_loaded(), 2).is_writable);
}

#[test]
fn resolve_legacy_keeps_a_program_writable_beside_the_upgradeable_loader() {
    let message = VersionedMessage::Legacy(LegacyMessage {
        header: header(2, 1, 1),
        account_keys: vec![
            key(1),
            key(2),
            key(3),
            key(4),
            Pubkey::new_from_array(LOADER_BYTES),
        ],
        instructions: vec![compiled(3, vec![0], vec![])],
    });
    assert!(resolve(&message, &none_loaded(), 3).is_writable);
}

#[test]
fn resolve_legacy_signer_must_be_a_static_key() {
    // The header counts more signers than the message has keys.
    let message = VersionedMessage::Legacy(LegacyMessage {
        header: header(4, 0, 0),
        account_keys: vec![key(1), key(2)],
        instructions: vec![],
    });
    assert!(resolve(&message, &none_loaded(), 1).is_signer);
    assert!(!resolve(&message, &none_loaded(), 2).is_signer);
    assert_eq!(resolve(&message, &none_loaded(), 2).pubkey, Pubkey::default());
}

#[test]
fn resolve_v0_static_keys() {
    let message = v0_message();
    assert_eq!(
        resolve(&message, &loaded(), 0),
        AccountMeta { pubkey: key(1), is_signer: true, is_writable: true }
    );
    assert_eq!(
        resolve(&message, &loaded(), 1),
        AccountMeta { pubkey: key(2), is_signer: false, is_writable: true }
    );
    assert_eq!(
        resolve(&message, &loaded(), 2),
        AccountMeta { pubkey: key(3), is_signer: false, is_writable: false }
    );
}

#[test]
fn resolve_v0_writable_loaded_address() {
    let message = v0_message();
    assert_eq!(
        resolve(&message, &loaded(), 3),
        AccountMeta { pubkey: key(10), is_signer: false, is_writable: true }
    );
    assert_eq!(
        resolve(&message, &loaded(), 4),
        AccountMeta { pubkey: key(11), is_signer: false, is_writable: true }
    );
}

#[test]
fn resolve_v0_readonly_loaded_address() {
    let message = v0_message();
    assert_eq!(
        resolve(&message, &loaded(), 5),
        AccountMeta { pubkey: key(20), is_signer: false, is_writable: false }
    );
}

#[test]
fn resolve_v0_index_past_the_table_gives_the_zero_address() {
    let message = v0_message();
    assert_eq!(
        resolve(&message, &loaded(), 6),
        AccountMeta { pubkey: Pubkey::default(), is_signer: false, is_writable: false }
    );
}

#[test]
fn resolve_v0_loaded_address_never_signs() {
    // The header counts more signers than the message has static keys.
    let message = VersionedMessage::V0(V0Message {
        header: header(5, 0, 0),
        account_keys: vec![key(1)],
        instructions: vec![],
    });
    let account = resolve(&message, &loaded(), 1);
    assert_eq!(account.pubkey, key(10));
    assert!(!account.is_signer);
    assert!(account.is_writable);
}

#[test]
fn resolve_v0_demotes_a_loaded_program() {
    // An instruction runs the address loaded as writable at index 3.
    let message = VersionedMessage::V0(V0Message {
        header: header(1, 0, 1),
        account_keys: vec![key(1), key(2), key(3)],
        instructions: vec![compiled(3, vec![0], vec![])],
    });
    assert!(!resolve(&message, &loaded(), 3).is_writable);
    assert!(resolve(&message, &loaded(), 4).is_writable);
}

#[test]
fn resolve_v0_keeps_a_program_writable_beside_a_loaded_upgradeable_loader() {
    let message = VersionedMessage::V0(V0Message {
        header: header(1, 0, 1),
        account_keys: vec![key(1), key(2), key(3)],
        instructions: vec![compiled(3, vec![0], vec![])],
    });
    let with_loader = LoadedAddresses {
        writable: vec![key(10), key(11)],
        readonly: vec![Pubkey::new_from_array(LOADER_BYTES)],
    };
    assert!(resolve(&message, &with_loader, 3).is_writable);
}

#[test]
fn account_key_walks_static_then_writable_then_readonly() {
    let message = v0_message();
    let table = loaded();
    let expected = [key(1), key(2), key(3), key(10), key(11), key(20), Pubkey::default()];
    for (index, want) in expected.iter().enumerate() {
        assert_eq!(account_key(&message, &table, index), *want);
    }
}

#[test]
fn resolve_instruction_keeps_length_order_and_payload() {
    let message = v0_message();
    let table = loaded();
    let source = compiled(2, vec![5, 0, 0, 9, 3], vec![1, 2, 3]);
    let resolved = resolve_instruction(&message, &table, &source);
    assert_eq!(resolved.program_id, key(3));
    assert_eq!(resolved.data, vec![1, 2, 3]);
    assert_eq!(resolved.accounts.len(), 5);
    for (k, index) in source.accounts.iter().enumerate() {
        assert_eq!(resolved.accounts[k], resolve(&message, &table, *index as usize));
    }
    assert_eq!(resolved.accounts[3].pubkey, Pubkey::default());
}

#[test]
fn resolve_instruction_with_unknown_program_gives_the_zero_address() {
    let message = legacy_message();
    let source = compiled(200, vec![], vec![]);
    let resolved = resolve_instruction(&message, &none_loaded(), &source);
    assert_eq!(resolved.program_id, Pubkey::default());
    assert!(resolved.accounts.is_empty());
    assert!(resolved.data.is_empty());
}
