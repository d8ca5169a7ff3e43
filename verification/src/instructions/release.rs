//! The funder's own release of an escrow.

use vstd::prelude::*;
use crate::errors::EscrowError;
use crate::events::EscrowReleased;
use crate::state::{Escrow, EscrowStatus, Pubkey};

verus! {

/// Why `caller` cannot release the escrow, if not: the escrow is neither
/// `Funded` nor `PendingRelease`, or else the caller is not the funder.
pub open spec fn release_error(escrow: Escrow, caller: Pubkey) -> Option<EscrowError> {
    if escrow.status != EscrowStatus::Funded && escrow.status != EscrowStatus::PendingRelease {
        Some(EscrowError::InvalidStatus)
    } else if caller != escrow.requester {
        Some(EscrowError::Unauthorized)
    } else {
        None
    }
}

/// Releases a funded or pending escrow at the funder's call, whatever the
/// confirmations. Nothing is paid yet: the event reports zero distributed.
pub fn release(escrow: &mut Escrow, escrow_key: Pubkey, caller: Pubkey) -> (r: Result<
    EscrowReleased,
    EscrowError,
>)
    ensures
        match r {
            Ok(event) => {
                &&& release_error(*old(escrow), caller) is None
                &&& *final(escrow) == (Escrow { status: EscrowStatus::Released, ..*old(escrow) })
                &&& event == (EscrowReleased { escrow: escrow_key, total_distributed: 0 })
            },
            Err(e) => {
                &&& release_error(*old(escrow), caller) == Some(e)
                &&& *final(escrow) == *old(escrow)
            },
        },
        old(escrow).status.can_become(final(escrow).status),
        old(escrow).wf() ==> final(escrow).wf(),
{
    if escrow.status != EscrowStatus::Funded && escrow.status != EscrowStatus::PendingRelease {
        return Err(EscrowError::InvalidStatus);
    }
    if caller != escrow.requester {
        return Err(EscrowError::Unauthorized);
    }
    escrow.status = EscrowStatus::Released;
    Ok(EscrowReleased { escrow: escrow_key, total_distributed: 0 })
}

} // verus!
