//! Transformations of a transaction into resolved instructions, and of wire
//! metadata into canonical metadata.

use crate::error::{CarbonError, CarbonResult};
use crate::extraction::{
    decode_visited_groups, decoded_visited_groups, extract_resolved_instructions,
    extracted_instructions, group_instructions_for, inner_instructions_of, instruction_slot,
    instruction_slots, is_visited, recorded_groups, resolved_all, select_for,
    visited_groups_decode, wire_groups, wire_loaded_addresses,
};
use crate::instruction::{AccountMeta, AccountMetaView, Instruction};
use crate::resolver::{resolved_accounts, resolved_instruction};
use crate::message::{
    CompiledInstruction, CompiledInstructionView, LoadedAddresses, LoadedAddressesView,
    VersionedMessage, VersionedMessageView,
};
use crate::metadata::{
    InnerInstructions, InnerInstructionsView, OptionSerializer, TransactionStatusMeta,
    TransactionStatusMetaView, UiInnerInstructionsView, UiInstructionView,
    UiTransactionStatusMeta, UiTransactionStatusMetaView,
};
use crate::normalize::{
    compiled_only, decoded_group, group_decodes, normalize_balances, normalize_groups,
    normalize_loaded_addresses, normalize_return_data, normalized_balances, normalized_group,
    normalized_groups, normalized_instruction, normalized_loaded_addresses,
    normalized_return_data, payload_decodes,
};
use crate::permissions::{
    legacy_maybe_writable, outside_legacy_is_maybe_writable, outside_v0_is_maybe_writable,
    v0_maybe_writable,
};
use vstd::prelude::*;

verus! {

/// Extracts every instruction that a transaction ran, fully resolved, from
/// its message and its canonical metadata.
///
/// The output is flat: each top-level instruction of the message in order,
/// each followed at once by its inner instructions in the order in which
/// they ran. A message without instructions gives an empty output; a record
/// without inner instructions behaves as one whose groups are all empty.
/// The extraction never fails.
pub fn extract_instructions_with_metadata(
    meta: &TransactionStatusMeta,
    message: &VersionedMessage,
) -> (result: CarbonResult<Vec<Instruction>>)
    ensures
        result matches Ok(instructions) && instructions.deep_view() == extracted_instructions(
            recorded_groups(meta@),
            message@,
            meta@.loaded_addresses,
        ),
{
    let no_groups: Vec<InnerInstructions> = no_items();
    let groups = match &meta.inner_instructions {
        Some(groups) => groups,
        None => &no_groups,
    };
    Ok(extract_resolved_instructions(groups, message, &meta.loaded_addresses))
}

/// Extracts every instruction that a transaction ran, fully resolved, from
/// its message and its metadata in wire form, without normalizing the whole
/// record first.
///
/// The output is that of [`extract_instructions_with_metadata`] on what the
/// record holds once read: of the groups whose parent is a top-level
/// instruction, the compiled instructions with their payload decoded from
/// base58; and, for a version 0 message, the loaded addresses read from
/// their text, the all-zero address standing in for a text that is no
/// address.
///
/// The extraction fails as a whole, with
/// [`CarbonError::InvalidInstructionData`], exactly when one of those
/// payloads is not base58. An instruction that is not compiled is left out,
/// and a group that no top-level instruction matches is not read at all.
pub fn extract_instructions_with_ui_metadata(
    meta: UiTransactionStatusMeta,
    message: &VersionedMessage,
) -> (result: CarbonResult<Vec<Instruction>>)
    ensures
        match result {
            Ok(instructions) => visited_groups_decode(
                wire_groups(meta@),
                message@.message().instructions.len() as int,
            ) && instructions.deep_view() == extracted_instructions(
                decoded_visited_groups(
                    wire_groups(meta@),
                    message@.message().instructions.len() as int,
                ),
                message@,
                wire_loaded_addresses(meta@, message@),
            ),
            Err(e) => !visited_groups_decode(
                wire_groups(meta@),
                message@.message().instructions.len() as int,
            ) && e == CarbonError::InvalidInstructionData,
        },
{
    let count = message.instructions().len();
    let groups = match &meta.inner_instructions {
        OptionSerializer::Present(groups) => {
            match decode_visited_groups(groups, count) {
                Ok(decoded) => decoded,
                Err(e) => {
                    return Err(e);
                },
            }
        },
        _ => {
            assert(decoded_visited_groups(Seq::empty(), count as int) =~= Seq::empty());
            no_items()
        },
    };
    let loaded = match (message, &meta.loaded_addresses) {
        (VersionedMessage::V0(_), OptionSerializer::Present(loaded)) => {
            normalize_loaded_addresses(loaded)
        },
        _ => LoadedAddresses::new(),
    };
    Ok(extract_resolved_instructions(&groups, message, &loaded))
}

/// Whether the message may write to the static key at `index`, given a set
/// of reserved keys, by the rule of its format.
pub open spec fn static_maybe_writable(
    message: VersionedMessageView,
    index: int,
    reserved: Option<Seq<Seq<u8>>>,
) -> bool {
    match message {
        VersionedMessageView::Legacy(legacy) => legacy_maybe_writable(legacy, index, reserved),
        VersionedMessageView::V0(v0) => v0_maybe_writable(v0, index, reserved),
    }
}

/// The account that the static key at `index` stands for in the accounts of
/// a decoded instruction. Write access is judged with every static key of
/// the message reserved.
pub open spec fn static_account_meta(message: VersionedMessageView, index: int) -> AccountMetaView {
    AccountMetaView {
        pubkey: message.message().account_keys[index],
        is_signer: index < message.message().header.num_required_signatures,
        is_writable: static_maybe_writable(
            message,
            index,
            Some(message.message().account_keys),
        ),
    }
}

/// Whether every account index of the instruction names a static key of the
/// message.
pub open spec fn accounts_are_static(
    compiled: CompiledInstructionView,
    message: VersionedMessageView,
) -> bool {
    forall|k: int|
        0 <= k < compiled.accounts.len() ==> (#[trigger] compiled.accounts[k] as int)
            < message.message().account_keys.len()
}

/// The accounts of an instruction whose indices all name static keys, one
/// for each index and in the same order.
pub open spec fn static_account_metas(
    compiled: CompiledInstructionView,
    message: VersionedMessageView,
) -> Seq<AccountMetaView> {
    Seq::new(
        compiled.accounts.len(),
        |k: int| static_account_meta(message, compiled.accounts[k] as int),
    )
}

/// With every static key reserved, no static key is writable.
pub proof fn lemma_static_account_meta_is_read_only(message: VersionedMessageView, index: int)
    requires
        0 <= index < message.message().account_keys.len(),
    ensures
        !static_account_meta(message, index).is_writable,
{
    let keys = message.message().account_keys;
    assert(keys.contains(keys[index]));
}

/// The accounts of a compiled instruction, for a decoder: each account index
/// must name a static key of the message.
///
/// Fails with [`CarbonError::MissingAccountInTransaction`] exactly when an
/// index names no static key. Otherwise gives one account for each index,
/// in the same order: the static key, whether it signs, and whether the
/// message may write to it when every static key counts as reserved.
pub fn extract_account_metas(
    compiled_instruction: &CompiledInstruction,
    message: &VersionedMessage,
) -> (result: CarbonResult<Vec<AccountMeta>>)
    ensures
        match result {
            Ok(accounts) => accounts_are_static(compiled_instruction@, message@)
                && accounts.deep_view() == static_account_metas(compiled_instruction@, message@),
            Err(e) => !accounts_are_static(compiled_instruction@, message@) && e
                == CarbonError::MissingAccountInTransaction,
        },
{
    let keys = message.static_account_keys();
    let header = message.header();
    let mut accounts: Vec<AccountMeta> = Vec::new();
    let mut k: usize = 0;
    while k < compiled_instruction.accounts.len()
        invariant
            k <= compiled_instruction.accounts.len(),
            keys.deep_view() == message@.message().account_keys,
            *header == message@.message().header,
            accounts.len() == k,
            forall|j: int|
                0 <= j < k ==> (#[trigger] compiled_instruction.accounts@[j] as int)
                    < keys.len(),
            forall|j: int|
                0 <= j < k ==> (#[trigger] accounts@[j])@ == static_account_meta(
                    message@,
                    compiled_instruction.accounts@[j] as int,
                ),
        decreases compiled_instruction.accounts.len() - k,
    {
        let index = compiled_instruction.accounts[k] as usize;
        if index >= keys.len() {
            assert(!((compiled_instruction@.accounts[k as int] as int)
                < message@.message().account_keys.len()));
            return Err(CarbonError::MissingAccountInTransaction);
        }
        let pubkey = keys[index];
        assert(pubkey@ == keys.deep_view()[index as int]);
        let is_signer = index < header.num_required_signatures as usize;
        let is_writable = match message {
            VersionedMessage::Legacy(legacy) => outside_legacy_is_maybe_writable(
                legacy,
                index,
                Some(keys),
            ),
            VersionedMessage::V0(v0) => {
                assert(keys.deep_view().len() == v0.account_keys.deep_view().len());
                outside_v0_is_maybe_writable(v0, index, Some(keys))
            },
        };
        accounts.push(AccountMeta { pubkey, is_signer, is_writable });
        k += 1;
    }
    assert(accounts.deep_view() =~= static_account_metas(compiled_instruction@, message@));
    Ok(accounts)
}

/// The sequence that an optional collection of the wire form stands for: an
/// absent collection is an empty one.
pub open spec fn present_or_empty<T>(field: OptionSerializer<Seq<T>>) -> Seq<T> {
    match field {
        OptionSerializer::Present(items) => items,
        _ => Seq::empty(),
    }
}

/// The canonical form of a wire metadata record.
///
/// Every collection is present in the canonical record, and empty where the
/// wire record has none. The status, the fee, the balances, the log lines,
/// the rewards and the compute units pass through unchanged.
pub open spec fn normalized_meta(ui: UiTransactionStatusMetaView) -> TransactionStatusMetaView {
    TransactionStatusMetaView {
        status: ui.status,
        fee: ui.fee,
        pre_balances: ui.pre_balances,
        post_balances: ui.post_balances,
        inner_instructions: Some(normalized_groups(present_or_empty(ui.inner_instructions))),
        log_messages: Some(present_or_empty(ui.log_messages)),
        pre_token_balances: Some(normalized_balances(present_or_empty(ui.pre_token_balances))),
        post_token_balances: Some(normalized_balances(present_or_empty(ui.post_token_balances))),
        rewards: Some(present_or_empty(ui.rewards)),
        loaded_addresses: match ui.loaded_addresses {
            OptionSerializer::Present(loaded) => normalized_loaded_addresses(loaded),
            _ => LoadedAddressesView::empty(),
        },
        return_data: match ui.return_data {
            OptionSerializer::Present(data) => Some(normalized_return_data(data)),
            _ => None,
        },
        compute_units_consumed: ui.compute_units_consumed.present(),
    }
}

/// A wire record in which no optional field is present normalizes to a
/// canonical record in which every collection is there and empty, no address
/// is loaded, and return data and compute units are absent. The status, the
/// fee and the balances are those of the wire record.
pub proof fn lemma_absent_fields_normalize_to_empty(ui: UiTransactionStatusMetaView)
    requires
        !(ui.inner_instructions is Present),
        !(ui.log_messages is Present),
        !(ui.pre_token_balances is Present),
        !(ui.post_token_balances is Present),
        !(ui.rewards is Present),
        !(ui.loaded_addresses is Present),
        !(ui.return_data is Present),
        !(ui.compute_units_consumed is Present),
    ensures
        normalized_meta(ui) == (TransactionStatusMetaView {
            status: ui.status,
            fee: ui.fee,
            pre_balances: ui.pre_balances,
            post_balances: ui.post_balances,
            inner_instructions: Some(Seq::empty()),
            log_messages: Some(Seq::empty()),
            pre_token_balances: Some(Seq::empty()),
            post_token_balances: Some(Seq::empty()),
            rewards: Some(Seq::empty()),
            loaded_addresses: LoadedAddressesView::empty(),
            return_data: None,
            compute_units_consumed: None,
        }),
{
    assert(normalized_groups(Seq::empty()) =~= Seq::empty());
    assert(normalized_balances(Seq::empty()) =~= Seq::empty());
}

/// Whether every instruction of the group is compiled, with a base58
/// payload.
pub open spec fn group_is_compiled(group: UiInnerInstructionsView) -> bool {
    forall|j: int|
        0 <= j < group.instructions.len() ==> compiled_only(#[trigger] group.instructions[j])
            is Some && payload_decodes(group.instructions[j])
}

/// Whether every instruction that an extraction over `count` top-level
/// instructions reads is compiled, with a base58 payload.
pub open spec fn visited_groups_are_compiled(
    groups: Seq<UiInnerInstructionsView>,
    count: int,
) -> bool {
    forall|g: int|
        0 <= g < groups.len() && is_visited(#[trigger] groups[g], count) ==> group_is_compiled(
            groups[g],
        )
}

/// Where selecting keeps every element, it is mapping.
proof fn lemma_filter_map_keeps_all<A, B>(
    items: Seq<A>,
    select: spec_fn(A) -> Option<B>,
    map: spec_fn(A) -> B,
)
    requires
        forall|k: int| 0 <= k < items.len() ==> select(#[trigger] items[k]) == Some(map(items[k])),
    ensures
        items.filter_map(select) == items.map_values(map),
    decreases items.len(),
{
    if items.len() > 0 {
        let shorter = items.drop_last();
        assert forall|k: int| 0 <= k < shorter.len() implies select(#[trigger] shorter[k])
            == Some(map(shorter[k])) by {
            assert(shorter[k] == items[k]);
        }
        lemma_filter_map_keeps_all(shorter, select, map);
        assert(select(items[items.len() - 1]) == Some(map(items.last())));
        assert(items.filter_map(select) =~= items.map_values(map));
    } else {
        assert(items.filter_map(select) =~= items.map_values(map));
    }
}

/// A group of compiled instructions with base58 payloads decodes to its
/// canonical form.
proof fn lemma_compiled_group_decodes_to_canonical(group: UiInnerInstructionsView)
    requires
        group_is_compiled(group),
    ensures
        group_decodes(group),
        decoded_group(group) == normalized_group(group),
{
    lemma_filter_map_keeps_all(
        group.instructions,
        |ui: UiInstructionView| compiled_only(ui),
        |ui: UiInstructionView| normalized_instruction(ui),
    );
}

/// Where the groups that an extraction reads hold compiled instructions
/// with base58 payloads only, a top-level instruction has the same inner
/// instructions in the decoded groups that the extraction reads as in the
/// canonical form of all the groups.
proof fn lemma_inner_instructions_agree(
    groups: Seq<UiInnerInstructionsView>,
    count: int,
    index: int,
)
    requires
        0 <= index < count,
        visited_groups_are_compiled(groups, count),
    ensures
        inner_instructions_of(decoded_visited_groups(groups, count), index)
            == inner_instructions_of(normalized_groups(groups), index),
    decreases groups.len(),
{
    let select = select_for(index);
    if groups.len() > 0 {
        let shorter = groups.drop_last();
        let last = groups.last();
        assert forall|g: int|
            0 <= g < shorter.len() && is_visited(#[trigger] shorter[g], count) implies group_is_compiled(
            shorter[g],
        ) by {
            assert(shorter[g] == groups[g]);
        }
        lemma_inner_instructions_agree(shorter, count, index);
        assert(shorter.push(last) =~= groups);
        assert(normalized_groups(groups) =~= normalized_groups(shorter).push(
            normalized_group(last),
        ));
        normalized_groups(shorter).lemma_flat_map_push(select, normalized_group(last));
        if is_visited(last, count) {
            assert(groups[groups.len() - 1] == last);
            lemma_compiled_group_decodes_to_canonical(last);
            assert(decoded_visited_groups(groups, count) =~= decoded_visited_groups(
                shorter,
                count,
            ).push(decoded_group(last)));
            decoded_visited_groups(shorter, count).lemma_flat_map_push(select, decoded_group(last));
        } else {
            assert(decoded_visited_groups(groups, count) =~= decoded_visited_groups(
                shorter,
                count,
            ));
            assert(group_instructions_for(normalized_group(last), index) =~= Seq::empty());
        }
    } else {
        assert(decoded_visited_groups(groups, count) =~= Seq::empty());
        assert(normalized_groups(groups) =~= Seq::empty());
    }
}

/// The output of an extraction depends on the groups only through the inner
/// instructions that they give to each top-level instruction.
proof fn lemma_extraction_by_inner_instructions(
    first: Seq<InnerInstructionsView>,
    second: Seq<InnerInstructionsView>,
    message: VersionedMessageView,
    loaded: LoadedAddressesView,
)
    requires
        forall|i: int|
            0 <= i < message.message().instructions.len() ==> inner_instructions_of(first, i)
                == inner_instructions_of(second, i),
    ensures
        extracted_instructions(first, message, loaded) == extracted_instructions(
            second,
            message,
            loaded,
        ),
{
    let count = message.message().instructions.len() as int;
    assert(instruction_slots(first, message, loaded, count) =~= instruction_slots(
        second,
        message,
        loaded,
        count,
    ));
}

/// A legacy message resolves its instructions against its static keys
/// alone: the output of an extraction is the same whatever addresses come
/// with it as loaded.
pub proof fn lemma_legacy_extraction_ignores_loaded_addresses(
    groups: Seq<InnerInstructionsView>,
    message: VersionedMessageView,
    first: LoadedAddressesView,
    second: LoadedAddressesView,
)
    requires
        message is Legacy,
    ensures
        extracted_instructions(groups, message, first) == extracted_instructions(
            groups,
            message,
            second,
        ),
{
    let count = message.message().instructions.len() as int;
    assert forall|compiled: CompiledInstructionView| #[trigger]
        resolved_instruction(message, first, compiled) == resolved_instruction(
            message,
            second,
            compiled,
        ) by {
        assert(resolved_accounts(message, first, compiled.accounts) =~= resolved_accounts(
            message,
            second,
            compiled.accounts,
        ));
    }
    assert forall|i: int| 0 <= i < count implies instruction_slot(groups, message, first, i)
        == instruction_slot(groups, message, second, i) by {
        assert(resolved_all(message, first, inner_instructions_of(groups, i)) =~= resolved_all(
            message,
            second,
            inner_instructions_of(groups, i),
        ));
    }
    assert(instruction_slots(groups, message, first, count) =~= instruction_slots(
        groups,
        message,
        second,
        count,
    ));
}

/// Extracting from a wire record at once gives what normalizing the record
/// first and extracting from the canonical record gives, where every
/// instruction that the extraction reads is compiled and has a base58
/// payload. (An instruction that is not compiled is left out by the one and
/// becomes a placeholder in the other; a payload that is not base58 fails
/// the one and becomes empty in the other.)
pub proof fn lemma_wire_extraction_agrees_with_normalization(
    meta: UiTransactionStatusMetaView,
    message: VersionedMessageView,
)
    requires
        visited_groups_are_compiled(
            wire_groups(meta),
            message.message().instructions.len() as int,
        ),
    ensures
        visited_groups_decode(wire_groups(meta), message.message().instructions.len() as int),
        extracted_instructions(
            decoded_visited_groups(
                wire_groups(meta),
                message.message().instructions.len() as int,
            ),
            message,
            wire_loaded_addresses(meta, message),
        ) == extracted_instructions(
            recorded_groups(normalized_meta(meta)),
            message,
            normalized_meta(meta).loaded_addresses,
        ),
{
    let count = message.message().instructions.len() as int;
    let groups = wire_groups(meta);
    assert forall|g: int|
        0 <= g < groups.len() && is_visited(#[trigger] groups[g], count) implies group_decodes(
        groups[g],
    ) by {
        lemma_compiled_group_decodes_to_canonical(groups[g]);
    }
    assert(recorded_groups(normalized_meta(meta)) == normalized_groups(groups));
    assert forall|i: int| 0 <= i < count implies inner_instructions_of(
        decoded_visited_groups(groups, count),
        i,
    ) == inner_instructions_of(normalized_groups(groups), i) by {
        lemma_inner_instructions_agree(groups, count, i);
    }
    lemma_extraction_by_inner_instructions(
        decoded_visited_groups(groups, count),
        normalized_groups(groups),
        message,
        wire_loaded_addresses(meta, message),
    );
    if message is Legacy {
        lemma_legacy_extraction_ignores_loaded_addresses(
            normalized_groups(groups),
            message,
            wire_loaded_addresses(meta, message),
            normalized_meta(meta).loaded_addresses,
        );
    }
}

/// An empty collection, for a field that the wire record does not hold.
fn no_items<T: DeepView>() -> (items: Vec<T>)
    ensures
        items.deep_view() == Seq::<T::V>::empty(),
{
    let items: Vec<T> = Vec::new();
    assert(items.deep_view() =~= Seq::<T::V>::empty());
    items
}

/// Converts the metadata of a transaction from wire form to canonical form.
///
/// The conversion is total: it always succeeds, and where a single entry of
/// the wire record is malformed, that entry degrades as
/// [`normalized_meta`] says.
pub fn transaction_metadata_from_original_meta(meta_original: UiTransactionStatusMeta) -> (result:
    CarbonResult<TransactionStatusMeta>)
    ensures
        result matches Ok(meta) && meta@ == normalized_meta(meta_original@),
{
    let inner_instructions = match &meta_original.inner_instructions {
        OptionSerializer::Present(groups) => normalize_groups(groups),
        _ => {
            assert(normalized_groups(Seq::empty()) =~= Seq::empty());
            no_items()
        },
    };
    let pre_token_balances = match &meta_original.pre_token_balances {
        OptionSerializer::Present(balances) => normalize_balances(balances),
        _ => {
            assert(normalized_balances(Seq::empty()) =~= Seq::empty());
            no_items()
        },
    };
    let post_token_balances = match &meta_original.post_token_balances {
        OptionSerializer::Present(balances) => normalize_balances(balances),
        _ => {
            assert(normalized_balances(Seq::empty()) =~= Seq::empty());
            no_items()
        },
    };
    let loaded_addresses = match &meta_original.loaded_addresses {
        OptionSerializer::Present(loaded) => normalize_loaded_addresses(loaded),
        _ => LoadedAddresses::new(),
    };
    let return_data = match &meta_original.return_data {
        OptionSerializer::Present(data) => Some(normalize_return_data(data)),
        _ => None,
    };
    let UiTransactionStatusMeta {
        status,
        fee,
        pre_balances,
        post_balances,
        log_messages,
        rewards,
        compute_units_consumed,
        ..
    } = meta_original;
    let log_messages = match log_messages {
        OptionSerializer::Present(lines) => lines,
        _ => no_items(),
    };
    let rewards = match rewards {
        OptionSerializer::Present(rewards) => rewards,
        _ => no_items(),
    };
    let meta = TransactionStatusMeta {
        status,
        fee,
        pre_balances,
        post_balances,
        inner_instructions: Some(inner_instructions),
        log_messages: Some(log_messages),
        pre_token_balances: Some(pre_token_balances),
        post_token_balances: Some(post_token_balances),
        rewards: Some(rewards),
        loaded_addresses,
        return_data,
        compute_units_consumed: compute_units_consumed.into_option(),
    };
    Ok(meta)
}

} // verus!
