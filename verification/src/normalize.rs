//! From the wire form of metadata to its canonical form, field by field.
//!
//! The conversion of a malformed entry degrades instead of failing: a payload
//! that is not base58 becomes empty, an address that cannot be read becomes
//! the all-zero address, an instruction that is not compiled becomes a
//! placeholder, and a token balance without owner is dropped.

use crate::base58::{base58_decoded, decode_base58};
use crate::error::CarbonError;
use crate::message::{
    CompiledInstruction, CompiledInstructionView, LoadedAddresses, LoadedAddressesView,
};
use crate::metadata::{
    InnerInstruction, InnerInstructionView, InnerInstructions, InnerInstructionsView,
    OptionSerializer, TransactionReturnData, TransactionReturnDataView, TransactionTokenBalance,
    TransactionTokenBalanceView, UiCompiledInstruction, UiCompiledInstructionView,
    UiInnerInstructions, UiInnerInstructionsView, UiInstruction, UiInstructionView,
    UiLoadedAddresses, UiLoadedAddressesView, UiTransactionReturnData,
    UiTransactionReturnDataView, UiTransactionTokenBalance, UiTransactionTokenBalanceView,
};
use crate::pubkey::{parse_pubkey_or_default, parsed_pubkey, pubkey_or_default, Pubkey};
use vstd::prelude::*;
use vstd::slice::slice_to_vec;
use vstd::utf8::encode_utf8;

verus! {

/// The payload that a decoding outcome stands for where a failure is
/// tolerated: the decoded bytes, or no bytes at all.
pub open spec fn payload_or_empty(decoded: Option<Seq<u8>>) -> Seq<u8> {
    match decoded {
        Some(bytes) => bytes,
        None => Seq::empty(),
    }
}

/// The canonical form of a compiled wire instruction whose payload is
/// `data`.
pub open spec fn compiled_with_payload(
    ui: UiCompiledInstructionView,
    data: Seq<u8>,
) -> InnerInstructionView {
    InnerInstructionView {
        instruction: CompiledInstructionView {
            program_id_index: ui.program_id_index,
            accounts: ui.accounts,
            data,
        },
        stack_height: ui.stack_height,
    }
}

/// The canonical form of a compiled wire instruction: its payload is decoded
/// from base58, and is empty where the text is not base58.
pub open spec fn normalized_compiled(ui: UiCompiledInstructionView) -> InnerInstructionView {
    compiled_with_payload(ui, payload_or_empty(base58_decoded(ui.data)))
}

/// What stands in for a wire instruction that is not compiled: program index
/// zero, no account, no payload, no stack height.
pub open spec fn placeholder_instruction() -> InnerInstructionView {
    InnerInstructionView {
        instruction: CompiledInstructionView {
            program_id_index: 0,
            accounts: Seq::empty(),
            data: Seq::empty(),
        },
        stack_height: None,
    }
}

/// The canonical form of a wire instruction. Every wire instruction has one,
/// so a group keeps its length and its order.
pub open spec fn normalized_instruction(ui: UiInstructionView) -> InnerInstructionView {
    match ui {
        UiInstructionView::Compiled(compiled) => normalized_compiled(compiled),
        UiInstructionView::Parsed => placeholder_instruction(),
    }
}

/// The canonical form of a group of wire instructions: the same parent
/// index, and the canonical form of each instruction.
pub open spec fn normalized_group(group: UiInnerInstructionsView) -> InnerInstructionsView {
    InnerInstructionsView {
        index: group.index,
        instructions: group.instructions.map_values(
            |ui: UiInstructionView| normalized_instruction(ui),
        ),
    }
}

/// The canonical form of a sequence of groups.
pub open spec fn normalized_groups(groups: Seq<UiInnerInstructionsView>) -> Seq<
    InnerInstructionsView,
> {
    groups.map_values(|group: UiInnerInstructionsView| normalized_group(group))
}

/// Whether the payload of a wire instruction can be taken as it stands: the
/// instruction is not compiled, or its payload is base58.
pub open spec fn payload_decodes(ui: UiInstructionView) -> bool {
    match ui {
        UiInstructionView::Compiled(compiled) => base58_decoded(compiled.data) is Some,
        UiInstructionView::Parsed => true,
    }
}

/// Whether every compiled instruction of the group has a base58 payload.
pub open spec fn group_decodes(group: UiInnerInstructionsView) -> bool {
    forall|j: int| 0 <= j < group.instructions.len() ==> payload_decodes(#[trigger] group.instructions[j])
}

/// What a wire instruction gives where only compiled instructions count: a
/// compiled instruction gives its canonical form, any other gives nothing.
pub open spec fn compiled_only(ui: UiInstructionView) -> Option<InnerInstructionView> {
    match ui {
        UiInstructionView::Compiled(compiled) => Some(normalized_compiled(compiled)),
        UiInstructionView::Parsed => None,
    }
}

/// The compiled instructions of a group of wire instructions, in canonical
/// form; the instructions that are not compiled are left out.
pub open spec fn decoded_group(group: UiInnerInstructionsView) -> InnerInstructionsView {
    InnerInstructionsView {
        index: group.index,
        instructions: group.instructions.filter_map(|ui: UiInstructionView| compiled_only(ui)),
    }
}

/// What an instruction at `position` of a group with parent `parent` gives
/// to the list of unsupported instructions: its place, if it is not
/// compiled.
pub open spec fn unsupported_at(
    group: UiInnerInstructionsView,
    position: int,
) -> Option<(u8, usize)> {
    if group.instructions[position] is Parsed {
        Some((group.index, position as usize))
    } else {
        None
    }
}

/// The places of the instructions of a group that are not compiled, each as
/// the parent index of the group and the position in the group, in order.
pub open spec fn unsupported_in_group(group: UiInnerInstructionsView) -> Seq<(u8, usize)> {
    Seq::new(group.instructions.len(), |position: int| position).filter_map(
        |position: int| unsupported_at(group, position),
    )
}

/// The places of the instructions of a list of groups that are not
/// compiled, group after group.
pub open spec fn unsupported_in_groups(groups: Seq<UiInnerInstructionsView>) -> Seq<(u8, usize)> {
    groups.flat_map(|group: UiInnerInstructionsView| unsupported_in_group(group))
}

/// The address that each text of a list stands for; a text that is no
/// address stands for the all-zero address.
pub open spec fn normalized_addresses(texts: Seq<Seq<char>>) -> Seq<Seq<u8>> {
    texts.map_values(|text: Seq<char>| pubkey_or_default(parsed_pubkey(text)))
}

/// The canonical form of loaded addresses.
pub open spec fn normalized_loaded_addresses(ui: UiLoadedAddressesView) -> LoadedAddressesView {
    LoadedAddressesView {
        writable: normalized_addresses(ui.writable),
        readonly: normalized_addresses(ui.readonly),
    }
}

/// The canonical form of a token balance, if it has one: a balance is kept
/// only where both its owner and its owning program are present.
pub open spec fn kept_balance(ui: UiTransactionTokenBalanceView) -> Option<
    TransactionTokenBalanceView,
> {
    match (ui.owner, ui.program_id) {
        (OptionSerializer::Present(owner), OptionSerializer::Present(program_id)) => Some(
            TransactionTokenBalanceView {
                account_index: ui.account_index,
                mint: ui.mint,
                ui_token_amount: ui.ui_token_amount,
                owner,
                program_id,
            },
        ),
        _ => None,
    }
}

/// The canonical form of a list of token balances: the balances that are
/// kept, in their order.
pub open spec fn normalized_balances(balances: Seq<UiTransactionTokenBalanceView>) -> Seq<
    TransactionTokenBalanceView,
> {
    balances.filter_map(|ui: UiTransactionTokenBalanceView| kept_balance(ui))
}

/// A token balance without owner, or without owning program, has no
/// canonical form.
pub proof fn lemma_balance_without_owner_is_dropped(ui: UiTransactionTokenBalanceView)
    requires
        !(ui.owner is Present) || !(ui.program_id is Present),
    ensures
        kept_balance(ui) is None,
{
}

/// Every token balance of a canonical list stems from a wire balance whose
/// owner and owning program are present, and carries them: no balance
/// without owner appears in the canonical list.
pub proof fn lemma_kept_balances_have_owners(
    balances: Seq<UiTransactionTokenBalanceView>,
    kept: TransactionTokenBalanceView,
)
    requires
        normalized_balances(balances).contains(kept),
    ensures
        exists|k: int|
            0 <= k < balances.len() && (#[trigger] balances[k]).owner
                == OptionSerializer::Present(kept.owner) && balances[k].program_id
                == OptionSerializer::Present(kept.program_id) && kept_balance(balances[k])
                == Some(kept),
{
    let select = |ui: UiTransactionTokenBalanceView| kept_balance(ui);
    balances.lemma_filter_map_contains(select, kept);
    let source = choose|source: UiTransactionTokenBalanceView| #[trigger]
        balances.contains(source) && select(source) == Some(kept);
    let k = choose|k: int| 0 <= k < balances.len() && balances[k] == source;
    assert(kept_balance(balances[k]) == Some(kept));
}

/// The canonical form of return data: the program address is read from its
/// text, and the payload is the bytes of the payload text.
pub open spec fn normalized_return_data(
    ui: UiTransactionReturnDataView,
) -> TransactionReturnDataView {
    TransactionReturnDataView {
        program_id: pubkey_or_default(parsed_pubkey(ui.program_id)),
        data: encode_utf8(ui.data),
    }
}

/// The canonical form of a compiled wire instruction, given its payload.
pub fn compiled_from_payload(ui: &UiCompiledInstruction, data: Vec<u8>) -> (inner:
    InnerInstruction)
    ensures
        inner@ == compiled_with_payload(ui@, data@),
{
    InnerInstruction {
        instruction: CompiledInstruction {
            program_id_index: ui.program_id_index,
            accounts: ui.accounts.clone(),
            data,
        },
        stack_height: ui.stack_height,
    }
}

/// The payload to go on with after an attempt to decode one, where a failure
/// is tolerated: the decoded bytes, or no bytes at all.
pub fn payload_or_empty_of(decoded: Result<Vec<u8>, CarbonError>) -> (data: Vec<u8>)
    ensures
        data@ == match decoded {
            Ok(bytes) => bytes@,
            Err(_) => Seq::<u8>::empty(),
        },
{
    match decoded {
        Ok(bytes) => bytes,
        Err(_) => Vec::new(),
    }
}

/// What stands in for a wire instruction that is not compiled.
pub fn placeholder() -> (inner: InnerInstruction)
    ensures
        inner@ == placeholder_instruction(),
{
    InnerInstruction {
        instruction: CompiledInstruction {
            program_id_index: 0,
            accounts: Vec::new(),
            data: Vec::new(),
        },
        stack_height: None,
    }
}

/// Converts a wire instruction to canonical form, degrading where it is
/// malformed.
pub fn normalize_instruction(ui: &UiInstruction) -> (inner: InnerInstruction)
    ensures
        inner@ == normalized_instruction(ui@),
{
    match ui {
        UiInstruction::Compiled(compiled) => {
            let data = payload_or_empty_of(decode_base58(compiled.data.as_str()));
            compiled_from_payload(compiled, data)
        },
        UiInstruction::Parsed => placeholder(),
    }
}

/// Converts a group of wire instructions to canonical form, instruction by
/// instruction.
pub fn normalize_group(group: &UiInnerInstructions) -> (normalized: InnerInstructions)
    ensures
        normalized@ == normalized_group(group@),
{
    let mut instructions: Vec<InnerInstruction> = Vec::new();
    let mut j: usize = 0;
    while j < group.instructions.len()
        invariant
            j <= group.instructions.len(),
            instructions.len() == j,
            forall|k: int|
                0 <= k < j ==> (#[trigger] instructions@[k])@ == normalized_instruction(
                    group.instructions@[k]@,
                ),
        decreases group.instructions.len() - j,
    {
        instructions.push(normalize_instruction(&group.instructions[j]));
        j += 1;
    }
    assert(instructions.deep_view() =~= normalized_group(group@).instructions);
    InnerInstructions { index: group.index, instructions }
}

/// Converts a list of groups of wire instructions to canonical form.
pub fn normalize_groups(groups: &Vec<UiInnerInstructions>) -> (normalized: Vec<InnerInstructions>)
    ensures
        normalized.deep_view() == normalized_groups(groups.deep_view()),
{
    let mut normalized: Vec<InnerInstructions> = Vec::new();
    let mut g: usize = 0;
    while g < groups.len()
        invariant
            g <= groups.len(),
            normalized.len() == g,
            forall|k: int|
                0 <= k < g ==> (#[trigger] normalized@[k])@ == normalized_group(groups@[k]@),
        decreases groups.len() - g,
    {
        normalized.push(normalize_group(&groups[g]));
        g += 1;
    }
    assert(normalized.deep_view() =~= normalized_groups(groups.deep_view()));
    normalized
}

/// Converts a group of wire instructions to canonical form for an
/// extraction, where payloads matter: the instructions that are not compiled
/// are left out, and a payload that is not base58 fails the whole group.
pub fn decode_group(group: &UiInnerInstructions) -> (outcome: Result<
    InnerInstructions,
    CarbonError,
>)
    ensures
        match outcome {
            Ok(decoded) => group_decodes(group@) && decoded@ == decoded_group(group@),
            Err(e) => !group_decodes(group@) && e == CarbonError::InvalidInstructionData,
        },
{
    let ghost all = group@.instructions;
    let ghost select = |ui: UiInstructionView| compiled_only(ui);
    let mut instructions: Vec<InnerInstruction> = Vec::new();
    let mut j: usize = 0;
    assert(all.take(0) =~= Seq::empty());
    assert(instructions.deep_view() =~= all.take(0).filter_map(select));
    while j < group.instructions.len()
        invariant
            j <= group.instructions.len(),
            all == group@.instructions,
            select == |ui: UiInstructionView| compiled_only(ui),
            forall|k: int| 0 <= k < j ==> payload_decodes(#[trigger] all[k]),
            instructions.deep_view() == all.take(j as int).filter_map(select),
        decreases group.instructions.len() - j,
    {
        let ghost so_far = instructions.deep_view();
        proof {
            all.lemma_filter_map_take_succ(select, j as int);
            assert(all[j as int] == group.instructions@[j as int]@);
        }
        match &group.instructions[j] {
            UiInstruction::Compiled(compiled) => {
                match decode_base58(compiled.data.as_str()) {
                    Ok(data) => {
                        let inner = compiled_from_payload(compiled, data);
                        instructions.push(inner);
                        assert(instructions.deep_view() =~= so_far.push(inner@));
                    },
                    Err(e) => {
                        assert(!payload_decodes(all[j as int]));
                        return Err(e);
                    },
                }
            },
            UiInstruction::Parsed => {},
        }
        j += 1;
    }
    assert(all.take(j as int) =~= all);
    Ok(InnerInstructions { index: group.index, instructions })
}

/// Lists the instructions of a list of groups that are not compiled, for
/// the caller to report: the conversions of this crate leave such an
/// instruction out or replace it, and never fail on it.
pub fn unsupported_instructions(groups: &Vec<UiInnerInstructions>) -> (places: Vec<(u8, usize)>)
    ensures
        places@ == unsupported_in_groups(groups.deep_view()),
{
    let ghost all = groups.deep_view();
    let ghost each = |group: UiInnerInstructionsView| unsupported_in_group(group);
    let mut places: Vec<(u8, usize)> = Vec::new();
    let mut g: usize = 0;
    assert(all.take(0) =~= Seq::empty());
    assert(all.take(0).flat_map(each) =~= Seq::empty());
    while g < groups.len()
        invariant
            g <= groups.len(),
            all == groups.deep_view(),
            each == |group: UiInnerInstructionsView| unsupported_in_group(group),
            places@ == all.take(g as int).flat_map(each),
        decreases groups.len() - g,
    {
        let group = &groups[g];
        let ghost before = places@;
        let ghost positions = Seq::new(group@.instructions.len(), |position: int| position);
        let ghost select = |position: int| unsupported_at(group@, position);
        let mut j: usize = 0;
        assert(positions.take(0) =~= Seq::empty());
        assert(places@ =~= before + positions.take(0).filter_map(select));
        while j < group.instructions.len()
            invariant
                j <= group.instructions.len(),
                positions == Seq::new(group@.instructions.len(), |position: int| position),
                select == |position: int| unsupported_at(group@, position),
                places@ == before + positions.take(j as int).filter_map(select),
            decreases group.instructions.len() - j,
        {
            proof {
                positions.lemma_filter_map_take_succ(select, j as int);
                assert(positions[j as int] == j);
                assert(group@.instructions[j as int] == group.instructions@[j as int]@);
            }
            let ghost so_far = places@;
            match &group.instructions[j] {
                UiInstruction::Parsed => {
                    places.push((group.index, j));
                    assert(places@ =~= so_far.push((group.index, j)));
                },
                UiInstruction::Compiled(_) => {},
            }
            j += 1;
        }
        proof {
            assert(positions.take(j as int) =~= positions);
            all.lemma_flat_map_take_append(each, g as int);
            assert(all[g as int] == group@);
        }
        g += 1;
    }
    assert(all.take(g as int) =~= all);
    places
}

/// Reads each address of a list from its text; a text that is no address
/// gives the all-zero address.
pub fn normalize_addresses(texts: &Vec<String>) -> (keys: Vec<Pubkey>)
    ensures
        keys.deep_view() == normalized_addresses(texts.deep_view()),
{
    let mut keys: Vec<Pubkey> = Vec::new();
    let mut k: usize = 0;
    while k < texts.len()
        invariant
            k <= texts.len(),
            keys.len() == k,
            forall|j: int|
                0 <= j < k ==> (#[trigger] keys@[j])@ == pubkey_or_default(
                    parsed_pubkey(texts@[j]@),
                ),
        decreases texts.len() - k,
    {
        keys.push(parse_pubkey_or_default(texts[k].as_str()));
        k += 1;
    }
    assert(keys.deep_view() =~= normalized_addresses(texts.deep_view()));
    keys
}

/// Converts loaded addresses to canonical form.
pub fn normalize_loaded_addresses(ui: &UiLoadedAddresses) -> (loaded: LoadedAddresses)
    ensures
        loaded@ == normalized_loaded_addresses(ui@),
{
    LoadedAddresses {
        writable: normalize_addresses(&ui.writable),
        readonly: normalize_addresses(&ui.readonly),
    }
}

/// Converts a token balance to canonical form, if both its owner and its
/// owning program are present.
pub fn keep_balance(ui: &UiTransactionTokenBalance) -> (kept: Option<TransactionTokenBalance>)
    ensures
        kept.deep_view() == kept_balance(ui@),
{
    match (&ui.owner, &ui.program_id) {
        (OptionSerializer::Present(owner), OptionSerializer::Present(program_id)) => Some(
            TransactionTokenBalance {
                account_index: ui.account_index,
                mint: ui.mint.clone(),
                ui_token_amount: ui.ui_token_amount.clone(),
                owner: owner.clone(),
                program_id: program_id.clone(),
            },
        ),
        _ => None,
    }
}

/// Converts a list of token balances to canonical form, dropping those
/// without owner or owning program.
pub fn normalize_balances(balances: &Vec<UiTransactionTokenBalance>) -> (kept: Vec<
    TransactionTokenBalance,
>)
    ensures
        kept.deep_view() == normalized_balances(balances.deep_view()),
{
    let ghost all = balances.deep_view();
    let ghost select = |ui: UiTransactionTokenBalanceView| kept_balance(ui);
    let mut kept: Vec<TransactionTokenBalance> = Vec::new();
    let mut k: usize = 0;
    assert(all.take(0) =~= Seq::empty());
    assert(kept.deep_view() =~= all.take(0).filter_map(select));
    while k < balances.len()
        invariant
            k <= balances.len(),
            all == balances.deep_view(),
            select == |ui: UiTransactionTokenBalanceView| kept_balance(ui),
            kept.deep_view() == all.take(k as int).filter_map(select),
        decreases balances.len() - k,
    {
        let ghost so_far = kept.deep_view();
        proof {
            all.lemma_filter_map_take_succ(select, k as int);
            assert(all[k as int] == balances@[k as int]@);
        }
        match keep_balance(&balances[k]) {
            Some(balance) => {
                kept.push(balance);
                assert(kept.deep_view() =~= so_far.push(balance@));
            },
            None => {},
        }
        k += 1;
    }
    assert(all.take(k as int) =~= all);
    kept
}

/// Converts return data to canonical form.
pub fn normalize_return_data(ui: &UiTransactionReturnData) -> (data: TransactionReturnData)
    ensures
        data@ == normalized_return_data(ui@),
{
    let text = ui.data.as_str();
    let bytes = slice_to_vec(text.as_bytes());
    TransactionReturnData {
        program_id: parse_pubkey_or_default(ui.program_id.as_str()),
        data: bytes,
    }
}

} // verus!
