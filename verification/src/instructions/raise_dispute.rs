//! Disputing an escrow.

use vstd::prelude::*;
use crate::errors::EscrowError;
use crate::events::DisputeRaised;
use crate::state::{Escrow, EscrowStatus, Pubkey};

verus! {

/// Why `initiator` cannot dispute the escrow, if not: the escrow is released
/// or refunded already, or else the initiator is neither the funder nor a
/// recipient.
pub open spec fn raise_dispute_error(escrow: Escrow, initiator: Pubkey) -> Option<EscrowError> {
    if escrow.status.is_terminal() {
        Some(EscrowError::AlreadyFinalized)
    } else if !escrow.is_party(initiator) {
        Some(EscrowError::Unauthorized)
    } else {
        None
    }
}

/// Puts an escrow that is not final into dispute, at the call of the funder or
/// of a recipient. `reason_hash` is passed on in the event as it is.
pub fn raise_dispute(
    escrow: &mut Escrow,
    escrow_key: Pubkey,
    initiator: Pubkey,
    reason_hash: [u8; 32],
) -> (r: Result<DisputeRaised, EscrowError>)
    requires
        old(escrow).in_capacity(),
    ensures
        match r {
            Ok(event) => {
                &&& raise_dispute_error(*old(escrow), initiator) is None
                &&& *final(escrow) == (Escrow { status: EscrowStatus::Disputed, ..*old(escrow) })
                &&& event == (DisputeRaised { escrow: escrow_key, by: initiator, reason_hash })
            },
            Err(e) => {
                &&& raise_dispute_error(*old(escrow), initiator) == Some(e)
                &&& *final(escrow) == *old(escrow)
            },
        },
        old(escrow).status.can_become(final(escrow).status),
        old(escrow).wf() ==> final(escrow).wf(),
{
    if escrow.status.is_final() {
        return Err(EscrowError::AlreadyFinalized);
    }
    if !escrow.is_authorized_party(&initiator) {
        return Err(EscrowError::Unauthorized);
    }
    escrow.status = EscrowStatus::Disputed;
    Ok(DisputeRaised { escrow: escrow_key, by: initiator, reason_hash })
}

} // verus!
