//! Execution metadata of a transaction, in its canonical form and in the
//! form that the wire carries.
//!
//! The wire form may leave out every collection, keeps instruction payloads
//! and addresses as text, and tells three states of a field apart: present,
//! explicitly null, and omitted.

use crate::message::{
    CompiledInstruction, CompiledInstructionView, LoadedAddresses, LoadedAddressesView,
};
use crate::pubkey::Pubkey;
use solana_account_decoder_client_types::token::UiTokenAmount;
use solana_sdk::transaction::TransactionError;
use vstd::prelude::*;

verus! {

#[verifier::external_type_specification]
#[verifier::external_body]
pub struct ExTransactionError(TransactionError);

#[verifier::external_type_specification]
#[verifier::external_body]
pub struct ExUiTokenAmount(UiTokenAmount);

/// `UiTokenAmount::clone` copies the amount: the copy is the same value.
pub assume_specification[ <UiTokenAmount as Clone>::clone ](amount: &UiTokenAmount) -> (copy:
    UiTokenAmount)
    ensures
        copy == *amount,
;

/// A field of the wire form: present, explicitly null, or omitted.
#[derive(Clone, Debug, PartialEq, Eq)]
pub enum OptionSerializer<T> {
    /// The field is there, with this value.
    Present(T),
    /// The field is there and explicitly null.
    Null,
    /// The field is left out.
    Skip,
}

impl<T: DeepView> DeepView for OptionSerializer<T> {
    type V = OptionSerializer<T::V>;

    open spec fn deep_view(&self) -> OptionSerializer<T::V> {
        match self {
            OptionSerializer::Present(value) => OptionSerializer::Present(value.deep_view()),
            OptionSerializer::Null => OptionSerializer::Null,
            OptionSerializer::Skip => OptionSerializer::Skip,
        }
    }
}

impl<T> OptionSerializer<T> {
    /// The value of the field, if it is present.
    pub open spec fn present(self) -> Option<T> {
        match self {
            OptionSerializer::Present(value) => Some(value),
            _ => None,
        }
    }

    /// The value of the field, if it is present.
    pub fn into_option(self) -> (value: Option<T>)
        ensures
            value == self.present(),
    {
        match self {
            OptionSerializer::Present(value) => Some(value),
            _ => None,
        }
    }

    /// The value of the field by reference, if it is present.
    pub fn as_option(&self) -> (value: Option<&T>)
        ensures
            value == match *self {
                OptionSerializer::Present(v) => Some(&v),
                _ => None,
            },
    {
        match self {
            OptionSerializer::Present(value) => Some(value),
            _ => None,
        }
    }
}

/// An instruction that a program issued while a top-level instruction ran.
#[derive(Clone, Debug, PartialEq, Eq)]
pub struct InnerInstruction {
    /// The instruction, compiled against the key table of the message.
    pub instruction: CompiledInstruction,
    /// The depth of the call stack at which it ran, where it is known.
    pub stack_height: Option<u32>,
}

/// The mathematical content of an [`InnerInstruction`].
pub struct InnerInstructionView {
    pub instruction: CompiledInstructionView,
    pub stack_height: Option<u32>,
}

impl View for InnerInstruction {
    type V = InnerInstructionView;

    open spec fn view(&self) -> InnerInstructionView {
        InnerInstructionView { instruction: self.instruction@, stack_height: self.stack_height }
    }
}

impl DeepView for InnerInstruction {
    type V = InnerInstructionView;

    open spec fn deep_view(&self) -> InnerInstructionView {
        self@
    }
}

/// The inner instructions of one top-level instruction.
#[derive(Clone, Debug, PartialEq, Eq)]
pub struct InnerInstructions {
    /// The index of the top-level instruction that they belong to.
    pub index: u8,
    /// The inner instructions, in the order in which they ran.
    pub instructions: Vec<InnerInstruction>,
}

/// The mathematical content of [`InnerInstructions`].
pub struct InnerInstructionsView {
    pub index: u8,
    pub instructions: Seq<InnerInstructionView>,
}

impl View for InnerInstructions {
    type V = InnerInstructionsView;

    open spec fn view(&self) -> InnerInstructionsView {
        InnerInstructionsView { index: self.index, instructions: self.instructions.deep_view() }
    }
}

impl DeepView for InnerInstructions {
    type V = InnerInstructionsView;

    open spec fn deep_view(&self) -> InnerInstructionsView {
        self@
    }
}

/// The token balance of an account, with its owner and owning program.
#[derive(Clone, Debug, PartialEq)]
pub struct TransactionTokenBalance {
    pub account_index: u8,
    pub mint: String,
    pub ui_token_amount: UiTokenAmount,
    pub owner: String,
    pub program_id: String,
}

/// The mathematical content of a [`TransactionTokenBalance`].
pub struct TransactionTokenBalanceView {
    pub account_index: u8,
    pub mint: Seq<char>,
    pub ui_token_amount: UiTokenAmount,
    pub owner: Seq<char>,
    pub program_id: Seq<char>,
}

impl View for TransactionTokenBalance {
    type V = TransactionTokenBalanceView;

    open spec fn view(&self) -> TransactionTokenBalanceView {
        TransactionTokenBalanceView {
            account_index: self.account_index,
            mint: self.mint@,
            ui_token_amount: self.ui_token_amount,
            owner: self.owner@,
            program_id: self.program_id@,
        }
    }
}

impl DeepView for TransactionTokenBalance {
    type V = TransactionTokenBalanceView;

    open spec fn deep_view(&self) -> TransactionTokenBalanceView {
        self@
    }
}

/// What a reward was paid for.
#[derive(Clone, Copy, Debug, PartialEq, Eq, Structural)]
pub enum RewardType {
    Fee,
    Rent,
    Staking,
    Voting,
}

/// A reward credited to an account.
#[derive(Clone, Debug, PartialEq, Eq)]
pub struct Reward {
    /// The address of the account, as text.
    pub pubkey: String,
    pub lamports: i64,
    /// The balance of the account after the reward.
    pub post_balance: u64,
    pub reward_type: Option<RewardType>,
    pub commission: Option<u8>,
}

/// The mathematical content of a [`Reward`].
pub struct RewardView {
    pub pubkey: Seq<char>,
    pub lamports: i64,
    pub post_balance: u64,
    pub reward_type: Option<RewardType>,
    pub commission: Option<u8>,
}

impl View for Reward {
    type V = RewardView;

    open spec fn view(&self) -> RewardView {
        RewardView {
            pubkey: self.pubkey@,
            lamports: self.lamports,
            post_balance: self.post_balance,
            reward_type: self.reward_type,
            commission: self.commission,
        }
    }
}

impl DeepView for Reward {
    type V = RewardView;

    open spec fn deep_view(&self) -> RewardView {
        self@
    }
}

/// The data that the last program of a transaction returned.
#[derive(Clone, Debug, PartialEq, Eq)]
pub struct TransactionReturnData {
    pub program_id: Pubkey,
    pub data: Vec<u8>,
}

/// The mathematical content of [`TransactionReturnData`].
pub struct TransactionReturnDataView {
    pub program_id: Seq<u8>,
    pub data: Seq<u8>,
}

impl View for TransactionReturnData {
    type V = TransactionReturnDataView;

    open spec fn view(&self) -> TransactionReturnDataView {
        TransactionReturnDataView { program_id: self.program_id@, data: self.data@ }
    }
}

impl DeepView for TransactionReturnData {
    type V = TransactionReturnDataView;

    open spec fn deep_view(&self) -> TransactionReturnDataView {
        self@
    }
}

/// The execution metadata of a transaction, in canonical form.
#[derive(Debug, PartialEq)]
pub struct TransactionStatusMeta {
    /// Whether the transaction succeeded, and the error if it did not.
    pub status: Result<(), TransactionError>,
    pub fee: u64,
    pub pre_balances: Vec<u64>,
    pub post_balances: Vec<u64>,
    /// The inner instructions, grouped by top-level instruction.
    pub inner_instructions: Option<Vec<InnerInstructions>>,
    pub log_messages: Option<Vec<String>>,
    pub pre_token_balances: Option<Vec<TransactionTokenBalance>>,
    pub post_token_balances: Option<Vec<TransactionTokenBalance>>,
    pub rewards: Option<Vec<Reward>>,
    /// The addresses that a version 0 message loaded from lookup tables.
    pub loaded_addresses: LoadedAddresses,
    pub return_data: Option<TransactionReturnData>,
    pub compute_units_consumed: Option<u64>,
}

/// The mathematical content of a [`TransactionStatusMeta`].
pub struct TransactionStatusMetaView {
    pub status: Result<(), TransactionError>,
    pub fee: u64,
    pub pre_balances: Seq<u64>,
    pub post_balances: Seq<u64>,
    pub inner_instructions: Option<Seq<InnerInstructionsView>>,
    pub log_messages: Option<Seq<Seq<char>>>,
    pub pre_token_balances: Option<Seq<TransactionTokenBalanceView>>,
    pub post_token_balances: Option<Seq<TransactionTokenBalanceView>>,
    pub rewards: Option<Seq<RewardView>>,
    pub loaded_addresses: LoadedAddressesView,
    pub return_data: Option<TransactionReturnDataView>,
    pub compute_units_consumed: Option<u64>,
}

impl View for TransactionStatusMeta {
    type V = TransactionStatusMetaView;

    open spec fn view(&self) -> TransactionStatusMetaView {
        TransactionStatusMetaView {
            status: self.status,
            fee: self.fee,
            pre_balances: self.pre_balances@,
            post_balances: self.post_balances@,
            inner_instructions: self.inner_instructions.deep_view(),
            log_messages: self.log_messages.deep_view(),
            pre_token_balances: self.pre_token_balances.deep_view(),
            post_token_balances: self.post_token_balances.deep_view(),
            rewards: self.rewards.deep_view(),
            loaded_addresses: self.loaded_addresses@,
            return_data: self.return_data.deep_view(),
            compute_units_consumed: self.compute_units_consumed,
        }
    }
}

/// A compiled instruction as the wire carries it: the payload is base58 text.
#[derive(Clone, Debug, PartialEq, Eq)]
pub struct UiCompiledInstruction {
    pub program_id_index: u8,
    pub accounts: Vec<u8>,
    /// The payload, in base58.
    pub data: String,
    pub stack_height: Option<u32>,
}

/// The mathematical content of a [`UiCompiledInstruction`].
pub struct UiCompiledInstructionView {
    pub program_id_index: u8,
    pub accounts: Seq<u8>,
    pub data: Seq<char>,
    pub stack_height: Option<u32>,
}

impl View for UiCompiledInstruction {
    type V = UiCompiledInstructionView;

    open spec fn view(&self) -> UiCompiledInstructionView {
        UiCompiledInstructionView {
            program_id_index: self.program_id_index,
            accounts: self.accounts@,
            data: self.data@,
            stack_height: self.stack_height,
        }
    }
}

/// An inner instruction as the wire carries it. Only the compiled form can
/// be resolved; an instruction that arrives parsed stands for itself alone.
#[derive(Clone, Debug, PartialEq, Eq)]
pub enum UiInstruction {
    Compiled(UiCompiledInstruction),
    Parsed,
}

/// The mathematical content of a [`UiInstruction`].
pub enum UiInstructionView {
    Compiled(UiCompiledInstructionView),
    Parsed,
}

impl View for UiInstruction {
    type V = UiInstructionView;

    open spec fn view(&self) -> UiInstructionView {
        match self {
            UiInstruction::Compiled(compiled) => UiInstructionView::Compiled(compiled@),
            UiInstruction::Parsed => UiInstructionView::Parsed,
        }
    }
}

impl DeepView for UiInstruction {
    type V = UiInstructionView;

    open spec fn deep_view(&self) -> UiInstructionView {
        self@
    }
}

/// The inner instructions of one top-level instruction, in wire form.
#[derive(Clone, Debug, PartialEq, Eq)]
pub struct UiInnerInstructions {
    /// The index of the top-level instruction that they belong to.
    pub index: u8,
    pub instructions: Vec<UiInstruction>,
}

/// The mathematical content of [`UiInnerInstructions`].
pub struct UiInnerInstructionsView {
    pub index: u8,
    pub instructions: Seq<UiInstructionView>,
}

impl View for UiInnerInstructions {
    type V = UiInnerInstructionsView;

    open spec fn view(&self) -> UiInnerInstructionsView {
        UiInnerInstructionsView { index: self.index, instructions: self.instructions.deep_view() }
    }
}

impl DeepView for UiInnerInstructions {
    type V = UiInnerInstructionsView;

    open spec fn deep_view(&self) -> UiInnerInstructionsView {
        self@
    }
}

/// A token balance in wire form: the owner and the owning program may be
/// missing.
#[derive(Clone, Debug, PartialEq)]
pub struct UiTransactionTokenBalance {
    pub account_index: u8,
    pub mint: String,
    pub ui_token_amount: UiTokenAmount,
    pub owner: OptionSerializer<String>,
    pub program_id: OptionSerializer<String>,
}

/// The mathematical content of a [`UiTransactionTokenBalance`].
pub struct UiTransactionTokenBalanceView {
    pub account_index: u8,
    pub mint: Seq<char>,
    pub ui_token_amount: UiTokenAmount,
    pub owner: OptionSerializer<Seq<char>>,
    pub program_id: OptionSerializer<Seq<char>>,
}

impl View for UiTransactionTokenBalance {
    type V = UiTransactionTokenBalanceView;

    open spec fn view(&self) -> UiTransactionTokenBalanceView {
        UiTransactionTokenBalanceView {
            account_index: self.account_index,
            mint: self.mint@,
            ui_token_amount: self.ui_token_amount,
            owner: self.owner.deep_view(),
            program_id: self.program_id.deep_view(),
        }
    }
}

impl DeepView for UiTransactionTokenBalance {
    type V = UiTransactionTokenBalanceView;

    open spec fn deep_view(&self) -> UiTransactionTokenBalanceView {
        self@
    }
}

/// Loaded addresses in wire form: each address is text.
#[derive(Clone, Debug, PartialEq, Eq)]
pub struct UiLoadedAddresses {
    pub writable: Vec<String>,
    pub readonly: Vec<String>,
}

/// The mathematical content of [`UiLoadedAddresses`].
pub struct UiLoadedAddressesView {
    pub writable: Seq<Seq<char>>,
    pub readonly: Seq<Seq<char>>,
}

impl View for UiLoadedAddresses {
    type V = UiLoadedAddressesView;

    open spec fn view(&self) -> UiLoadedAddressesView {
        UiLoadedAddressesView {
            writable: self.writable.deep_view(),
            readonly: self.readonly.deep_view(),
        }
    }
}

impl DeepView for UiLoadedAddresses {
    type V = UiLoadedAddressesView;

    open spec fn deep_view(&self) -> UiLoadedAddressesView {
        self@
    }
}

/// Return data in wire form: the program is named by the text of its
/// address, and the payload travels as text.
#[derive(Clone, Debug, PartialEq, Eq)]
pub struct UiTransactionReturnData {
    pub program_id: String,
    pub data: String,
}

/// The mathematical content of [`UiTransactionReturnData`].
pub struct UiTransactionReturnDataView {
    pub program_id: Seq<char>,
    pub data: Seq<char>,
}

impl View for UiTransactionReturnData {
    type V = UiTransactionReturnDataView;

    open spec fn view(&self) -> UiTransactionReturnDataView {
        UiTransactionReturnDataView { program_id: self.program_id@, data: self.data@ }
    }
}

impl DeepView for UiTransactionReturnData {
    type V = UiTransactionReturnDataView;

    open spec fn deep_view(&self) -> UiTransactionReturnDataView {
        self@
    }
}

/// The execution metadata of a transaction, in wire form.
#[derive(Debug, PartialEq)]
pub struct UiTransactionStatusMeta {
    /// Whether the transaction succeeded, and the error if it did not.
    pub status: Result<(), TransactionError>,
    pub fee: u64,
    pub pre_balances: Vec<u64>,
    pub post_balances: Vec<u64>,
    pub inner_instructions: OptionSerializer<Vec<UiInnerInstructions>>,
    pub log_messages: OptionSerializer<Vec<String>>,
    pub pre_token_balances: OptionSerializer<Vec<UiTransactionTokenBalance>>,
    pub post_token_balances: OptionSerializer<Vec<UiTransactionTokenBalance>>,
    pub rewards: OptionSerializer<Vec<Reward>>,
    pub loaded_addresses: OptionSerializer<UiLoadedAddresses>,
    pub return_data: OptionSerializer<UiTransactionReturnData>,
    pub compute_units_consumed: OptionSerializer<u64>,
}

/// The mathematical content of a [`UiTransactionStatusMeta`].
pub struct UiTransactionStatusMetaView {
    pub status: Result<(), TransactionError>,
    pub fee: u64,
    pub pre_balances: Seq<u64>,
    pub post_balances: Seq<u64>,
    pub inner_instructions: OptionSerializer<Seq<UiInnerInstructionsView>>,
    pub log_messages: OptionSerializer<Seq<Seq<char>>>,
    pub pre_token_balances: OptionSerializer<Seq<UiTransactionTokenBalanceView>>,
    pub post_token_balances: OptionSerializer<Seq<UiTransactionTokenBalanceView>>,
    pub rewards: OptionSerializer<Seq<RewardView>>,
    pub loaded_addresses: OptionSerializer<UiLoadedAddressesView>,
    pub return_data: OptionSerializer<UiTransactionReturnDataView>,
    pub compute_units_consumed: OptionSerializer<u64>,
}

impl View for UiTransactionStatusMeta {
    type V = UiTransactionStatusMetaView;

    open spec fn view(&self) -> UiTransactionStatusMetaView {
        UiTransactionStatusMetaView {
            status: self.status,
            fee: self.fee,
            pre_balances: self.pre_balances@,
            post_balances: self.post_balances@,
            inner_instructions: self.inner_instructions.deep_view(),
            log_messages: self.log_messages.deep_view(),
            pre_token_balances: self.pre_token_balances.deep_view(),
            post_token_balances: self.post_token_balances.deep_view(),
            rewards: self.rewards.deep_view(),
            loaded_addresses: self.loaded_addresses.deep_view(),
            return_data: self.return_data.deep_view(),
            compute_units_consumed: self.compute_units_consumed.deep_view(),
        }
    }
}

} // verus!
