//! Transaction messages: the key tables and compiled instructions that the
//! resolver reads.

use crate::pubkey::Pubkey;
use vstd::prelude::*;

verus! {

/// The counts that split the static keys of a message into signers and
/// read-only accounts.
#[derive(Clone, Copy, Debug, PartialEq, Eq, Structural)]
pub struct MessageHeader {
    /// How many of the leading static keys sign the transaction.
    pub num_required_signatures: u8,
    /// How many of the last signing keys are read-only.
    pub num_readonly_signed_accounts: u8,
    /// How many of the last non-signing keys are read-only.
    pub num_readonly_unsigned_accounts: u8,
}

/// An instruction as a message stores it: the program and the accounts are
/// indices into the key tables of the message.
#[derive(Clone, Debug, PartialEq, Eq)]
pub struct CompiledInstruction {
    /// The index of the program that runs the instruction.
    pub program_id_index: u8,
    /// The indices of the accounts handed to the program, in order.
    pub accounts: Vec<u8>,
    /// The payload handed to the program.
    pub data: Vec<u8>,
}

/// The mathematical content of a [`CompiledInstruction`].
pub struct CompiledInstructionView {
    pub program_id_index: u8,
    pub accounts: Seq<u8>,
    pub data: Seq<u8>,
}

impl View for CompiledInstruction {
    type V = CompiledInstructionView;

    open spec fn view(&self) -> CompiledInstructionView {
        CompiledInstructionView {
            program_id_index: self.program_id_index,
            accounts: self.accounts@,
            data: self.data@,
        }
    }
}

impl DeepView for CompiledInstruction {
    type V = CompiledInstructionView;

    open spec fn deep_view(&self) -> CompiledInstructionView {
        self@
    }
}

/// A message of the first format: every account it uses is one of its
/// static keys.
#[derive(Clone, Debug, PartialEq, Eq)]
pub struct LegacyMessage {
    pub header: MessageHeader,
    /// The static keys, signers first.
    pub account_keys: Vec<Pubkey>,
    /// The top-level instructions, in execution order.
    pub instructions: Vec<CompiledInstruction>,
}

/// A message of format version 0: besides its static keys it uses addresses
/// loaded from lookup tables when the transaction runs. Those arrive apart
/// from the message, as [`LoadedAddresses`].
#[derive(Clone, Debug, PartialEq, Eq)]
pub struct V0Message {
    pub header: MessageHeader,
    /// The static keys, signers first.
    pub account_keys: Vec<Pubkey>,
    /// The top-level instructions, in execution order.
    pub instructions: Vec<CompiledInstruction>,
}

/// The mathematical content of a message of either format.
pub struct MessageView {
    pub header: MessageHeader,
    pub account_keys: Seq<Seq<u8>>,
    pub instructions: Seq<CompiledInstructionView>,
}

impl View for LegacyMessage {
    type V = MessageView;

    open spec fn view(&self) -> MessageView {
        MessageView {
            header: self.header,
            account_keys: self.account_keys.deep_view(),
            instructions: self.instructions.deep_view(),
        }
    }
}

impl View for V0Message {
    type V = MessageView;

    open spec fn view(&self) -> MessageView {
        MessageView {
            header: self.header,
            account_keys: self.account_keys.deep_view(),
            instructions: self.instructions.deep_view(),
        }
    }
}

/// A message of one of the two formats.
#[derive(Clone, Debug, PartialEq, Eq)]
pub enum VersionedMessage {
    Legacy(LegacyMessage),
    V0(V0Message),
}

/// The mathematical content of a [`VersionedMessage`].
pub enum VersionedMessageView {
    Legacy(MessageView),
    V0(MessageView),
}

impl View for VersionedMessage {
    type V = VersionedMessageView;

    open spec fn view(&self) -> VersionedMessageView {
        match self {
            VersionedMessage::Legacy(message) => VersionedMessageView::Legacy(message@),
            VersionedMessage::V0(message) => VersionedMessageView::V0(message@),
        }
    }
}

impl VersionedMessageView {
    /// The header, static keys and instructions, whatever the format.
    pub open spec fn message(self) -> MessageView {
        match self {
            VersionedMessageView::Legacy(message) => message,
            VersionedMessageView::V0(message) => message,
        }
    }
}

/// The addresses that a version 0 message loaded from lookup tables, split by
/// the access it asked for. In the key table of the message they follow the
/// static keys: first the writable ones, then the read-only ones.
#[derive(Clone, Debug, PartialEq, Eq)]
pub struct LoadedAddresses {
    pub writable: Vec<Pubkey>,
    pub readonly: Vec<Pubkey>,
}

/// The mathematical content of [`LoadedAddresses`].
pub struct LoadedAddressesView {
    pub writable: Seq<Seq<u8>>,
    pub readonly: Seq<Seq<u8>>,
}

impl View for LoadedAddresses {
    type V = LoadedAddressesView;

    open spec fn view(&self) -> LoadedAddressesView {
        LoadedAddressesView {
            writable: self.writable.deep_view(),
            readonly: self.readonly.deep_view(),
        }
    }
}

impl LoadedAddressesView {
    /// No loaded address at all.
    pub open spec fn empty() -> LoadedAddressesView {
        LoadedAddressesView { writable: Seq::empty(), readonly: Seq::empty() }
    }
}

impl LoadedAddresses {
    /// No loaded address at all.
    pub fn new() -> (loaded: LoadedAddresses)
        ensures
            loaded@ == LoadedAddressesView::empty(),
    {
        let loaded = LoadedAddresses { writable: Vec::new(), readonly: Vec::new() };
        assert(loaded@.writable =~= Seq::empty());
        assert(loaded@.readonly =~= Seq::empty());
        loaded
    }
}

impl VersionedMessage {
    /// The header of the message.
    pub fn header(&self) -> (header: &MessageHeader)
        ensures
            *header == self@.message().header,
    {
        match self {
            VersionedMessage::Legacy(message) => &message.header,
            VersionedMessage::V0(message) => &message.header,
        }
    }

    /// The static keys of the message.
    pub fn static_account_keys(&self) -> (keys: &Vec<Pubkey>)
        ensures
            keys.deep_view() == self@.message().account_keys,
    {
        match self {
            VersionedMessage::Legacy(message) => &message.account_keys,
            VersionedMessage::V0(message) => &message.account_keys,
        }
    }

    /// The top-level instructions of the message.
    pub fn instructions(&self) -> (instructions: &Vec<CompiledInstruction>)
        ensures
            instructions.deep_view() == self@.message().instructions,
    {
        match self {
            VersionedMessage::Legacy(message) => &message.instructions,
            VersionedMessage::V0(message) => &message.instructions,
        }
    }
}

} // verus!
