//! Proposing the release of a funded escrow.

use vstd::prelude::*;
use crate::errors::EscrowError;
use crate::events::ReleaseProposed;
use crate::helpers::lemma_empty_mask;
use crate::state::{Escrow, EscrowStatus, Pubkey};

verus! {

/// Why `proposer` cannot propose the release, if not: the escrow is not
/// `Funded`, or else the proposer is neither the funder nor a recipient.
pub open spec fn propose_release_error(escrow: Escrow, proposer: Pubkey) -> Option<EscrowError> {
    if escrow.status != EscrowStatus::Funded {
        Some(EscrowError::InvalidStatus)
    } else if !escrow.is_party(proposer) {
        Some(EscrowError::Unauthorized)
    } else {
        None
    }
}

/// Opens the quorum path: a funded escrow becomes `PendingRelease` at the
/// call of the funder or of a recipient.
pub fn propose_release(escrow: &mut Escrow, escrow_key: Pubkey, proposer: Pubkey) -> (r: Result<
    ReleaseProposed,
    EscrowError,
>)
    requires
        old(escrow).in_capacity(),
    ensures
        match r {
            Ok(event) => {
                &&& propose_release_error(*old(escrow), proposer) is None
                &&& *final(escrow) == (Escrow {
                    status: EscrowStatus::PendingRelease,
                    ..*old(escrow)
                })
                &&& event == (ReleaseProposed { escrow: escrow_key, by: proposer })
            },
            Err(e) => {
                &&& propose_release_error(*old(escrow), proposer) == Some(e)
                &&& *final(escrow) == *old(escrow)
            },
        },
        old(escrow).status.can_become(final(escrow).status),
        old(escrow).wf() ==> final(escrow).wf(),
{
    if escrow.status != EscrowStatus::Funded {
        return Err(EscrowError::InvalidStatus);
    }
    if !escrow.is_authorized_party(&proposer) {
        return Err(EscrowError::Unauthorized);
    }
    proof {
        lemma_empty_mask();
    }
    escrow.status = EscrowStatus::PendingRelease;
    Ok(ReleaseProposed { escrow: escrow_key, by: proposer })
}

} // verus!
