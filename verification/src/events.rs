//! What an operation reports to the outside when it succeeds.

use vstd::prelude::*;
use crate::state::Pubkey;

verus! {

/// An escrow record was created.
#[derive(Clone, Copy, Debug, PartialEq, Eq)]
pub struct EscrowCreated {
    pub escrow: Pubkey,
    pub requester: Pubkey,
    pub bounty_id: [u8; 32],
}

/// A deposit arrived.
#[derive(Clone, Copy, Debug, PartialEq, Eq)]
pub struct EscrowFunded {
    pub escrow: Pubkey,
    pub amount: u64,
}

/// A party proposed to release the escrow.
#[derive(Clone, Copy, Debug, PartialEq, Eq)]
pub struct ReleaseProposed {
    pub escrow: Pubkey,
    pub by: Pubkey,
}

/// A recipient confirmed the release; `confirmations` counts those who have
/// so far.
#[derive(Clone, Copy, Debug, PartialEq, Eq)]
pub struct ReleaseConfirmed {
    pub escrow: Pubkey,
    pub by: Pubkey,
    pub confirmations: u8,
}

/// The escrow was released, or `total_distributed` was paid out of it.
#[derive(Clone, Copy, Debug, PartialEq, Eq)]
pub struct EscrowReleased {
    pub escrow: Pubkey,
    pub total_distributed: u64,
}

/// The deposit went back to the funder.
#[derive(Clone, Copy, Debug, PartialEq, Eq)]
pub struct EscrowRefunded {
    pub escrow: Pubkey,
    pub refunded_to: Pubkey,
    pub amount: u64,
}

/// A party disputed the escrow.
#[derive(Clone, Copy, Debug, PartialEq, Eq)]
pub struct DisputeRaised {
    pub escrow: Pubkey,
    pub by: Pubkey,
    pub reason_hash: [u8; 32],
}

/// The arbiter settled a dispute.
#[derive(Clone, Copy, Debug, PartialEq, Eq)]
pub struct DisputeResolved {
    pub escrow: Pubkey,
    pub arbiter: Pubkey,
    pub total_distributed: u64,
}

} // verus!
