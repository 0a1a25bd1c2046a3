//! Resolved instructions: what a program was asked to do, with every account
//! named by its address.

use crate::pubkey::Pubkey;
use vstd::prelude::*;

verus! {

/// An account that an instruction touches, with the access the transaction
/// grants to it.
#[derive(Clone, Copy, Debug, PartialEq, Eq, Hash)]
pub struct AccountMeta {
    /// The address of the account.
    pub pubkey: Pubkey,
    /// Whether the account signed the transaction.
    pub is_signer: bool,
    /// Whether the instruction may write to the account.
    pub is_writable: bool,
}

/// The mathematical content of an [`AccountMeta`].
pub struct AccountMetaView {
    pub pubkey: Seq<u8>,
    pub is_signer: bool,
    pub is_writable: bool,
}

impl View for AccountMeta {
    type V = AccountMetaView;

    open spec fn view(&self) -> AccountMetaView {
        AccountMetaView {
            pubkey: self.pubkey@,
            is_signer: self.is_signer,
            is_writable: self.is_writable,
        }
    }
}

impl DeepView for AccountMeta {
    type V = AccountMetaView;

    open spec fn deep_view(&self) -> AccountMetaView {
        self@
    }
}

/// A fully resolved instruction: the program it targets, the accounts it
/// touches in the order the program sees them, and its payload.
#[derive(Clone, Debug, PartialEq, Eq)]
pub struct Instruction {
    /// The address of the program that runs the instruction.
    pub program_id: Pubkey,
    /// The accounts handed to the program.
    pub accounts: Vec<AccountMeta>,
    /// The payload handed to the program.
    pub data: Vec<u8>,
}

/// The mathematical content of an [`Instruction`].
pub struct InstructionView {
    pub program_id: Seq<u8>,
    pub accounts: Seq<AccountMetaView>,
    pub data: Seq<u8>,
}

impl View for Instruction {
    type V = InstructionView;

    open spec fn view(&self) -> InstructionView {
        InstructionView {
            program_id: self.program_id@,
            accounts: self.accounts.deep_view(),
            data: self.data@,
        }
    }
}

impl DeepView for Instruction {
    type V = InstructionView;

    open spec fn deep_view(&self) -> InstructionView {
        self@
    }
}

/// An instruction whose payload a decoder has turned into a typed value.
#[derive(Clone, Debug)]
pub struct DecodedInstruction<T> {
    /// The address of the program that owns the instruction.
    pub program_id: Pubkey,
    /// The decoded payload.
    pub data: T,
    /// The accounts handed to the program.
    pub accounts: Vec<AccountMeta>,
}

/// The mathematical content of a [`DecodedInstruction`].
pub struct DecodedInstructionView<T> {
    pub program_id: Seq<u8>,
    pub data: T,
    pub accounts: Seq<AccountMetaView>,
}

impl<T> View for DecodedInstruction<T> {
    type V = DecodedInstructionView<T>;

    open spec fn view(&self) -> DecodedInstructionView<T> {
        DecodedInstructionView {
            program_id: self.program_id@,
            data: self.data,
            accounts: self.accounts.deep_view(),
        }
    }
}

} // verus!
