//! The arbiter's settlement of a dispute.

use vstd::prelude::*;
use crate::errors::EscrowError;
use crate::events::EscrowReleased;
use crate::state::{Escrow, EscrowStatus, Pubkey};

verus! {

/// Why `caller` cannot resolve the dispute, if not: the escrow is not
/// `Disputed`, or else no arbiter is set or the caller is not the arbiter.
pub open spec fn resolve_dispute_error(escrow: Escrow, caller: Pubkey) -> Option<EscrowError> {
    if escrow.status != EscrowStatus::Disputed {
        Some(EscrowError::InvalidStatus)
    } else if escrow.arbiter.is_unset() || caller != escrow.arbiter {
        Some(EscrowError::Unauthorized)
    } else {
        None
    }
}

/// Releases a disputed escrow at the arbiter's call. Where no arbiter was
/// set, nobody can: the all-zero identity is no caller. Nothing is paid yet:
/// the event reports zero distributed.
pub fn resolve_dispute(escrow: &mut Escrow, escrow_key: Pubkey, caller: Pubkey) -> (r: Result<
    EscrowReleased,
    EscrowError,
>)
    ensures
        match r {
            Ok(event) => {
                &&& resolve_dispute_error(*old(escrow), caller) is None
                &&& *final(escrow) == (Escrow { status: EscrowStatus::Released, ..*old(escrow) })
                &&& event == (EscrowReleased { escrow: escrow_key, total_distributed: 0 })
            },
            Err(e) => {
                &&& resolve_dispute_error(*old(escrow), caller) == Some(e)
                &&& *final(escrow) == *old(escrow)
            },
        },
        old(escrow).status.can_become(final(escrow).status),
        old(escrow).wf() ==> final(escrow).wf(),
{
    if escrow.status != EscrowStatus::Disputed {
        return Err(EscrowError::InvalidStatus);
    }
    if escrow.arbiter.is_default() || caller != escrow.arbiter {
        return Err(EscrowError::Unauthorized);
    }
    escrow.status = EscrowStatus::Released;
    Ok(EscrowReleased { escrow: escrow_key, total_distributed: 0 })
}

} // verus!
