//! The errors that the transformations of this crate surface to their caller.

use vstd::prelude::*;

verus! {

/// A failure that makes a whole transaction unprocessable.
#[derive(Clone, Copy, Debug, PartialEq, Eq, Structural)]
pub enum CarbonError {
    /// An instruction names an account index that the static keys of the
    /// message do not hold.
    MissingAccountInTransaction,
    /// The payload of an inner instruction is not valid base58 text.
    InvalidInstructionData,
}

/// The result of a transformation that can fail as a whole.
pub type CarbonResult<T> = Result<T, CarbonError>;

impl CarbonError {
    /// A short description of the failure, for messages and logs.
    pub fn message(&self) -> (text: String)
        ensures
            text@ == match *self {
                CarbonError::MissingAccountInTransaction => "missing account in transaction"@,
                CarbonError::InvalidInstructionData => "instruction data is not valid base58"@,
            },
    {
        match self {
            CarbonError::MissingAccountInTransaction => "missing account in transaction".to_string(),
            CarbonError::InvalidInstructionData => "instruction data is not valid base58".to_string(),
        }
    }
}

} // verus!
