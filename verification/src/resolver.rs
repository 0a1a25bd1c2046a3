//! The account resolver: from an index into the key tables of a message to
//! an address with its signer and writable flags.

use crate::instruction::{AccountMeta, AccountMetaView, Instruction, InstructionView};
use crate::message::{
    CompiledInstruction, CompiledInstructionView, LoadedAddresses, LoadedAddressesView,
    MessageView, VersionedMessage, VersionedMessageView,
};
use crate::permissions::{
    demote_program_id, legacy_maybe_writable, loaded_account_keys, loaded_is_writable,
    outside_legacy_is_maybe_writable, outside_loaded_is_writable,
};
use crate::pubkey::{default_bytes, Pubkey};
use vstd::prelude::*;

verus! {

/// The key table that the indices of a message point into. A legacy message
/// has its static keys only; a version 0 message has its static keys, then
/// the addresses loaded as writable, then those loaded as read-only.
pub open spec fn account_keys(
    message: VersionedMessageView,
    loaded: LoadedAddressesView,
) -> Seq<Seq<u8>> {
    match message {
        VersionedMessageView::Legacy(legacy) => legacy.account_keys,
        VersionedMessageView::V0(v0) => loaded_account_keys(v0, loaded),
    }
}

/// The address at `index` of the key table, or the all-zero address where the
/// table ends before `index`.
pub open spec fn account_key_at(
    message: VersionedMessageView,
    loaded: LoadedAddressesView,
    index: int,
) -> Seq<u8> {
    let keys = account_keys(message, loaded);
    if 0 <= index < keys.len() {
        keys[index]
    } else {
        default_bytes()
    }
}

/// Whether the key at `index` signs the transaction: it is one of the static
/// keys, within the leading keys that the header counts as signers. A loaded
/// address never signs.
pub open spec fn is_signer(message: VersionedMessageView, index: int) -> bool {
    index < message.message().header.num_required_signatures && index
        < message.message().account_keys.len()
}

/// Whether the message may write to the key at `index`, by the rule of its
/// format.
pub open spec fn is_writable(
    message: VersionedMessageView,
    loaded: LoadedAddressesView,
    index: int,
) -> bool {
    match message {
        VersionedMessageView::Legacy(legacy) => legacy_maybe_writable(legacy, index, None),
        VersionedMessageView::V0(v0) => loaded_is_writable(v0, loaded, index),
    }
}

/// The account that `index` resolves to.
pub open spec fn resolved_account(
    message: VersionedMessageView,
    loaded: LoadedAddressesView,
    index: int,
) -> AccountMetaView {
    AccountMetaView {
        pubkey: account_key_at(message, loaded, index),
        is_signer: is_signer(message, index),
        is_writable: is_writable(message, loaded, index),
    }
}

/// The accounts that a list of indices resolves to, one for each index and in
/// the same order.
pub open spec fn resolved_accounts(
    message: VersionedMessageView,
    loaded: LoadedAddressesView,
    indices: Seq<u8>,
) -> Seq<AccountMetaView> {
    Seq::new(indices.len(), |k: int| resolved_account(message, loaded, indices[k] as int))
}

/// The instruction that a compiled instruction resolves to.
pub open spec fn resolved_instruction(
    message: VersionedMessageView,
    loaded: LoadedAddressesView,
    compiled: CompiledInstructionView,
) -> InstructionView {
    InstructionView {
        program_id: account_key_at(message, loaded, compiled.program_id_index as int),
        accounts: resolved_accounts(message, loaded, compiled.accounts),
        data: compiled.data,
    }
}

/// A compiled instruction resolves to as many accounts as it has account
/// indices, in the same order: the account at each place is what the index
/// at that place resolves to. This holds of every message, well formed or
/// not.
pub proof fn lemma_accounts_follow_indices(
    message: VersionedMessageView,
    loaded: LoadedAddressesView,
    compiled: CompiledInstructionView,
)
    ensures
        resolved_instruction(message, loaded, compiled).accounts.len() == compiled.accounts.len(),
        forall|k: int|
            0 <= k < compiled.accounts.len() ==> #[trigger] resolved_instruction(
                message,
                loaded,
                compiled,
            ).accounts[k] == resolved_account(message, loaded, compiled.accounts[k] as int),
{
}

/// In a version 0 message, an index into the addresses loaded as writable
/// resolves to that address, which does not sign and may be written to,
/// unless the message demotes it: it is not writable where an instruction
/// of the message runs it as its program and the upgradeable loader is not
/// among the keys.
pub proof fn lemma_writable_loaded_address(
    message: MessageView,
    loaded: LoadedAddressesView,
    index: int,
)
    requires
        message.account_keys.len() <= index < message.account_keys.len()
            + loaded.writable.len(),
        !demote_program_id(message.instructions, loaded_account_keys(message, loaded), index),
    ensures
        resolved_account(VersionedMessageView::V0(message), loaded, index) == (AccountMetaView {
            pubkey: loaded.writable[index - message.account_keys.len()],
            is_signer: false,
            is_writable: true,
        }),
{
}

/// In a version 0 message, no index into the loaded addresses resolves to a
/// signer, whatever the header says.
pub proof fn lemma_loaded_address_never_signs(
    message: MessageView,
    loaded: LoadedAddressesView,
    index: int,
)
    requires
        message.account_keys.len() <= index,
    ensures
        !resolved_account(VersionedMessageView::V0(message), loaded, index).is_signer,
{
}

/// Looks an index up in one segment of the key table.
fn key_in_segment(segment: &Vec<Pubkey>, index: usize) -> (key: Option<Pubkey>)
    ensures
        key.deep_view() == if index < segment.len() {
            Some(segment.deep_view()[index as int])
        } else {
            None
        },
{
    if index < segment.len() {
        Some(segment[index])
    } else {
        None
    }
}

/// The address at `account_index` of the key table of the message, or the
/// all-zero address where the table ends before it.
pub fn account_key(
    message: &VersionedMessage,
    loaded_addresses: &LoadedAddresses,
    account_index: usize,
) -> (key: Pubkey)
    ensures
        key@ == account_key_at(message@, loaded_addresses@, account_index as int),
{
    match message {
        VersionedMessage::Legacy(legacy) => {
            match key_in_segment(&legacy.account_keys, account_index) {
                Some(key) => key,
                None => Pubkey::default(),
            }
        },
        VersionedMessage::V0(v0) => {
            let num_static = v0.account_keys.len();
            if account_index < num_static {
                return v0.account_keys[account_index];
            }
            let in_loaded = account_index - num_static;
            let num_writable = loaded_addresses.writable.len();
            if in_loaded < num_writable {
                return loaded_addresses.writable[in_loaded];
            }
            match key_in_segment(&loaded_addresses.readonly, in_loaded - num_writable) {
                Some(key) => key,
                None => Pubkey::default(),
            }
        },
    }
}

/// Resolves an account index of a message: the address it points to, whether
/// that account signs, and whether the message may write to it.
///
/// An index past the end of the key table resolves to the all-zero address;
/// the resolver never fails.
pub fn resolve(
    message: &VersionedMessage,
    loaded_addresses: &LoadedAddresses,
    account_index: usize,
) -> (account: AccountMeta)
    ensures
        account@ == resolved_account(message@, loaded_addresses@, account_index as int),
{
    let pubkey = account_key(message, loaded_addresses, account_index);
    let header = message.header();
    let is_signer = account_index < header.num_required_signatures as usize && account_index
        < message.static_account_keys().len();
    let is_writable = match message {
        VersionedMessage::Legacy(legacy) => outside_legacy_is_maybe_writable(
            legacy,
            account_index,
            None,
        ),
        VersionedMessage::V0(v0) => outside_loaded_is_writable(
            v0,
            loaded_addresses,
            account_index,
        ),
    };
    AccountMeta { pubkey, is_signer, is_writable }
}

/// Resolves a compiled instruction of a message: its program and each of its
/// accounts, in order.
pub fn resolve_instruction(
    message: &VersionedMessage,
    loaded_addresses: &LoadedAddresses,
    compiled: &CompiledInstruction,
) -> (instruction: Instruction)
    ensures
        instruction@ == resolved_instruction(message@, loaded_addresses@, compiled@),
{
    let program_id = account_key(message, loaded_addresses, compiled.program_id_index as usize);
    let mut accounts: Vec<AccountMeta> = Vec::new();
    let mut k: usize = 0;
    while k < compiled.accounts.len()
        invariant
            k <= compiled.accounts.len(),
            accounts.len() == k,
            forall|j: int|
                0 <= j < k ==> (#[trigger] accounts@[j])@ == resolved_account(
                    message@,
                    loaded_addresses@,
                    compiled.accounts@[j] as int,
                ),
        decreases compiled.accounts.len() - k,
    {
        let account = resolve(message, loaded_addresses, compiled.accounts[k] as usize);
        accounts.push(account);
        k += 1;
    }
    assert(accounts.deep_view() =~= resolved_accounts(
        message@,
        loaded_addresses@,
        compiled.accounts@,
    ));
    Instruction { program_id, accounts, data: compiled.data.clone() }
}

} // verus!
