//! Failures that the vesting handlers and codecs report.
use vstd::prelude::*;

verus! {

/// Why an instruction or an account could not be processed.
#[derive(Clone, Copy, Debug, PartialEq, Eq, Structural)]
pub enum VestingError {
    /// The instruction bytes hold no known tag or are too short for its fields.
    BadInstruction,
    /// A derived-address, ownership, signer or "already initialized" check failed.
    InvalidArgument,
    /// An account buffer has the wrong length or a field breaks the layout.
    InvalidAccountData,
    /// The source token account holds less than the schedule total.
    InsufficientFunds,
    /// The schedule amounts do not sum within the range of `u64`.
    InvalidInstructionData,
    /// An account that must be initialized is not.
    UninitializedAccount,
    /// The seed does not yield a program-derived address.
    InvalidSeeds,
}

} // verus!
