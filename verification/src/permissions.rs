//! Which accounts of a message may be written to.
//!
//! The write-permission rules are those of the `solana_sdk` message types.
//! The functions of this module hand a message over to them; the spec
//! functions state what they answer.

use crate::message::{
    CompiledInstruction, CompiledInstructionView, LegacyMessage, LoadedAddresses,
    LoadedAddressesView, MessageHeader, MessageView, V0Message,
};
use crate::pubkey::Pubkey;
use solana_sdk::instruction::CompiledInstruction as OutsideInstruction;
use solana_sdk::message::legacy::Message as OutsideLegacy;
use solana_sdk::message::v0::LoadedAddresses as OutsideLoaded;
use solana_sdk::message::v0::LoadedMessage;
use solana_sdk::message::v0::Message as OutsideV0;
use solana_sdk::message::MessageHeader as OutsideHeader;
use solana_sdk::pubkey::Pubkey as OutsidePubkey;
use solana_sdk::reserved_account_keys::ReservedAccountKeys;
use std::collections::HashSet;
use vstd::prelude::*;

verus! {

/// The address of the upgradeable loader program. A message that names it
/// among its keys keeps its programs writable.
pub open spec fn upgradeable_loader_bytes() -> Seq<u8> {
    seq![
        2u8, 168u8, 246u8, 145u8, 78u8, 136u8, 161u8, 176u8,
        226u8, 16u8, 21u8, 62u8, 247u8, 99u8, 174u8, 43u8,
        0u8, 194u8, 185u8, 61u8, 22u8, 193u8, 36u8, 210u8,
        192u8, 83u8, 122u8, 16u8, 4u8, 128u8, 0u8, 0u8,
    ]
}

/// `a - b`, or zero where `b` is the larger.
pub open spec fn saturating_sub(a: int, b: int) -> int {
    if a >= b {
        a - b
    } else {
        0
    }
}

/// Whether one of the instructions runs the key at `index` as its program.
pub open spec fn is_key_called_as_program(
    instructions: Seq<CompiledInstructionView>,
    index: int,
) -> bool {
    exists|k: int|
        0 <= k < instructions.len() && (#[trigger] instructions[k]).program_id_index as int
            == index
}

/// Whether the upgradeable loader is one of the keys.
pub open spec fn is_upgradeable_loader_present(keys: Seq<Seq<u8>>) -> bool {
    keys.contains(upgradeable_loader_bytes())
}

/// Whether the key at `index` loses its write access for being a program:
/// it is run by an instruction, and the upgradeable loader is not among
/// `keys`.
pub open spec fn demote_program_id(
    instructions: Seq<CompiledInstructionView>,
    keys: Seq<Seq<u8>>,
    index: int,
) -> bool {
    is_key_called_as_program(instructions, index) && !is_upgradeable_loader_present(keys)
}

/// Whether the key at `index` is one of the reserved keys. Without a set of
/// reserved keys no key is.
pub open spec fn is_account_maybe_reserved(
    keys: Seq<Seq<u8>>,
    index: int,
    reserved: Option<Seq<Seq<u8>>>,
) -> bool {
    match reserved {
        Some(reserved_keys) => 0 <= index < keys.len() && reserved_keys.contains(keys[index]),
        None => false,
    }
}

/// Whether the header of a legacy message asks for write access to the key at
/// `index`: the key is a signer before the read-only signers, or a
/// non-signer before the read-only non-signers.
pub open spec fn legacy_writable_index(header: MessageHeader, num_keys: int, index: int) -> bool {
    index < saturating_sub(
        header.num_required_signatures as int,
        header.num_readonly_signed_accounts as int,
    ) || (index >= header.num_required_signatures && index < saturating_sub(
        num_keys,
        header.num_readonly_unsigned_accounts as int,
    ))
}

/// Whether a legacy message may write to the key at `index`, given an
/// optional set of reserved keys.
pub open spec fn legacy_maybe_writable(
    message: MessageView,
    index: int,
    reserved: Option<Seq<Seq<u8>>>,
) -> bool {
    &&& legacy_writable_index(message.header, message.account_keys.len() as int, index)
    &&& !is_account_maybe_reserved(message.account_keys, index, reserved)
    &&& !demote_program_id(message.instructions, message.account_keys, index)
}

/// Whether a version 0 message asks for write access to the key at `index`,
/// where `num_static` keys are static and `num_writable_loaded` addresses
/// were loaded as writable.
pub open spec fn v0_writable_index(
    header: MessageHeader,
    num_static: int,
    num_writable_loaded: int,
    index: int,
) -> bool {
    let num_signed = header.num_required_signatures as int;
    if index >= num_static {
        index - num_static < num_writable_loaded
    } else if index >= num_signed {
        index - num_signed < saturating_sub(
            saturating_sub(num_static, num_signed),
            header.num_readonly_unsigned_accounts as int,
        )
    } else {
        index < saturating_sub(num_signed, header.num_readonly_signed_accounts as int)
    }
}

/// Whether a version 0 message, taken without its loaded addresses, may
/// write to the static key at `index`, given an optional set of reserved
/// keys.
pub open spec fn v0_maybe_writable(
    message: MessageView,
    index: int,
    reserved: Option<Seq<Seq<u8>>>,
) -> bool {
    &&& v0_writable_index(message.header, message.account_keys.len() as int, 0, index)
    &&& !is_account_maybe_reserved(message.account_keys, index, reserved)
    &&& !demote_program_id(message.instructions, message.account_keys, index)
}

/// The whole key table of a version 0 message: the static keys, then the
/// addresses loaded as writable, then those loaded as read-only.
pub open spec fn loaded_account_keys(
    message: MessageView,
    loaded: LoadedAddressesView,
) -> Seq<Seq<u8>> {
    message.account_keys + loaded.writable + loaded.readonly
}

/// Whether a version 0 message with its loaded addresses may write to the
/// key at `index`. No key is reserved.
pub open spec fn loaded_is_writable(
    message: MessageView,
    loaded: LoadedAddressesView,
    index: int,
) -> bool {
    let keys = loaded_account_keys(message, loaded);
    &&& index < keys.len()
    &&& v0_writable_index(
        message.header,
        message.account_keys.len() as int,
        loaded.writable.len() as int,
        index,
    )
    &&& !demote_program_id(message.instructions, keys, index)
}

/// Calls `solana_sdk::message::legacy::Message::is_maybe_writable` on the
/// message, with the reserved keys as a set. The answer is that of
/// [`legacy_maybe_writable`]: the header asks for write access, the key is
/// not reserved, and it is not a program that the message demotes.
#[verifier::external_body]
pub(crate) fn outside_legacy_is_maybe_writable(
    message: &LegacyMessage,
    index: usize,
    reserved: Option<&Vec<Pubkey>>,
) -> (writable: bool)
    ensures
        writable == legacy_maybe_writable(message@, index as int, reserved.deep_view()),
{
    let key = |k: &Pubkey| OutsidePubkey::from(k.bytes);
    let compiled = |c: &CompiledInstruction| OutsideInstruction::new_from_raw_parts(c.program_id_index, c.data.clone(), c.accounts.clone());
    let outside = OutsideLegacy {
        header: OutsideHeader {
            num_required_signatures: message.header.num_required_signatures,
            num_readonly_signed_accounts: message.header.num_readonly_signed_accounts,
            num_readonly_unsigned_accounts: message.header.num_readonly_unsigned_accounts,
        },
        account_keys: message.account_keys.iter().map(key).collect(),
        instructions: message.instructions.iter().map(compiled).collect(),
        ..Default::default()
    };
    let set: Option<HashSet<OutsidePubkey>> = reserved.map(|r| r.iter().map(key).collect());
    outside.is_maybe_writable(index, set.as_ref())
}

/// Calls `solana_sdk::message::v0::Message::is_maybe_writable` on the
/// message, taken without lookup tables, with the reserved keys as a set.
/// For a static key the answer is that of [`v0_maybe_writable`].
#[verifier::external_body]
pub(crate) fn outside_v0_is_maybe_writable(
    message: &V0Message,
    index: usize,
    reserved: Option<&Vec<Pubkey>>,
) -> (writable: bool)
    requires
        index < message.account_keys.len(),
    ensures
        writable == v0_maybe_writable(message@, index as int, reserved.deep_view()),
{
    let key = |k: &Pubkey| OutsidePubkey::from(k.bytes);
    let compiled = |c: &CompiledInstruction| OutsideInstruction::new_from_raw_parts(c.program_id_index, c.data.clone(), c.accounts.clone());
    let outside = OutsideV0 {
        header: OutsideHeader {
            num_required_signatures: message.header.num_required_signatures,
            num_readonly_signed_accounts: message.header.num_readonly_signed_accounts,
            num_readonly_unsigned_accounts: message.header.num_readonly_unsigned_accounts,
        },
        account_keys: message.account_keys.iter().map(key).collect(),
        instructions: message.instructions.iter().map(compiled).collect(),
        ..Default::default()
    };
    let set: Option<HashSet<OutsidePubkey>> = reserved.map(|r| r.iter().map(key).collect());
    outside.is_maybe_writable(index, set.as_ref())
}

/// Builds a `solana_sdk::message::v0::LoadedMessage` from the message and its
/// loaded addresses, with no reserved key, and calls its `is_writable`. The
/// answer is that of [`loaded_is_writable`]: the index is in the key table,
/// the header or the lookup asks for write access, and the key is not a
/// program that the message demotes.
#[verifier::external_body]
#[allow(deprecated)]
pub(crate) fn outside_loaded_is_writable(
    message: &V0Message,
    loaded: &LoadedAddresses,
    index: usize,
) -> (writable: bool)
    ensures
        writable == loaded_is_writable(message@, loaded@, index as int),
{
    let key = |k: &Pubkey| OutsidePubkey::from(k.bytes);
    let compiled = |c: &CompiledInstruction| OutsideInstruction::new_from_raw_parts(c.program_id_index, c.data.clone(), c.accounts.clone());
    let outside = OutsideV0 {
        header: OutsideHeader {
            num_required_signatures: message.header.num_required_signatures,
            num_readonly_signed_accounts: message.header.num_readonly_signed_accounts,
            num_readonly_unsigned_accounts: message.header.num_readonly_unsigned_accounts,
        },
        account_keys: message.account_keys.iter().map(key).collect(),
        instructions: message.instructions.iter().map(compiled).collect(),
        ..Default::default()
    };
    let writable = loaded.writable.iter().map(key).collect();
    let addresses = OutsideLoaded { writable, readonly: loaded.readonly.iter().map(key).collect() };
    LoadedMessage::new(outside, addresses, &ReservedAccountKeys::empty_key_set()).is_writable(index)
}

} // verus!
