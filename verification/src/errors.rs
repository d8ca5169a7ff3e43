//! The ways an escrow operation can be refused.

use vstd::prelude::*;

verus! {

/// Why an operation on an escrow was refused. A refused operation leaves the
/// record exactly as it was.
#[derive(Clone, Copy, Debug, PartialEq, Eq, Structural)]
pub enum EscrowError {
    /// The recipient list is empty or too long, or the confirmation threshold
    /// does not lie between one and the number of recipients.
    InvalidRecipientCount,
    /// The split table does not match the recipients or does not sum to 10000
    /// basis points, or a claimed share rounds down to nothing.
    InvalidSplits,
    /// The caller is not the party this operation is reserved for.
    Unauthorized,
    /// The operation is not valid from the record's current status.
    InvalidStatus,
    /// The escrow holds nothing to move.
    InsufficientFunds,
    /// An amount does not fit the numeric range, or more would be paid out
    /// than the escrow holds.
    Overflow,
    /// A subtraction would go below zero.
    Underflow,
    /// The refund deadline has not passed yet.
    TimelockActive,
    /// The escrow was already released or refunded.
    AlreadyFinalized,
    /// The caller, or the owner of a destination account, is not the expected
    /// recipient.
    RecipientNotFound,
    /// A distribution does not have one amount per recipient.
    DistributionLengthMismatch,
    /// A destination account does not hold a valid token account.
    InvalidAccountData,
    /// A destination account holds another asset than the escrow.
    InvalidMint,
    /// The amount to move is zero.
    InvalidAmount,
    /// This recipient has confirmed the release before.
    AlreadyConfirmed,
    /// A recipient is listed twice.
    DuplicateRecipient,
    /// A recipient's split is zero.
    ZeroSplit,
    /// The refund deadline is not in the future.
    InvalidTimelock,
    /// The arbiter is the funder.
    InvalidArbiter,
    /// This recipient has withdrawn their share before.
    AlreadyClaimed,
    /// An arithmetic guard failed.
    MathError,
    /// The holding account is not the escrow's own.
    InvalidVault,
}

} // verus!
