//! Returning the deposit to the funder.

use vstd::prelude::*;
use crate::errors::EscrowError;
use crate::events::EscrowRefunded;
use crate::state::{Escrow, EscrowStatus, Pubkey};

verus! {

/// Whether the refund deadline of `escrow` still lies ahead at time `now`. An
/// escrow without a deadline is never locked.
pub open spec fn timelock_active(escrow: Escrow, now: i64) -> bool {
    escrow.timelock_expiry != 0 && now < escrow.timelock_expiry
}

/// Why `caller` cannot take the deposit back at time `now`, if not: the first
/// of these that applies. The caller is not the funder; the escrow is released
/// or refunded already; the deadline has not passed; nothing is held.
pub open spec fn refund_error(escrow: Escrow, caller: Pubkey, now: i64) -> Option<EscrowError> {
    if caller != escrow.requester {
        Some(EscrowError::Unauthorized)
    } else if escrow.status.is_terminal() {
        Some(EscrowError::AlreadyFinalized)
    } else if timelock_active(escrow, now) {
        Some(EscrowError::TimelockActive)
    } else if escrow.total_amount == 0 {
        Some(EscrowError::InsufficientFunds)
    } else {
        None
    }
}

/// The record after a refund: nothing held, status `Refunded`.
pub open spec fn refund_effect(escrow: Escrow) -> Escrow {
    Escrow { total_amount: 0, status: EscrowStatus::Refunded, ..escrow }
}

/// Gives the whole deposit back to the funder, at the funder's call, once the
/// deadline has passed or where there is none. The event names the amount to
/// move from the holding account to the funder.
///
/// Before the deadline the funder is always refused with `TimelockActive`
/// while the escrow is neither released nor refunded; at the deadline or after
/// it the refund succeeds where anything is held.
pub fn refund(escrow: &mut Escrow, escrow_key: Pubkey, caller: Pubkey, now: i64) -> (r: Result<
    EscrowRefunded,
    EscrowError,
>)
    ensures
        match r {
            Ok(event) => {
                &&& refund_error(*old(escrow), caller, now) is None
                &&& *final(escrow) == refund_effect(*old(escrow))
                &&& event == (EscrowRefunded {
                    escrow: escrow_key,
                    refunded_to: old(escrow).requester,
                    amount: old(escrow).total_amount,
                })
            },
            Err(e) => {
                &&& refund_error(*old(escrow), caller, now) == Some(e)
                &&& *final(escrow) == *old(escrow)
            },
        },
        caller == old(escrow).requester && !old(escrow).status.is_terminal() && timelock_active(
            *old(escrow),
            now,
        ) ==> r == Err::<EscrowRefunded, EscrowError>(EscrowError::TimelockActive),
        caller == old(escrow).requester && !old(escrow).status.is_terminal() && !timelock_active(
            *old(escrow),
            now,
        ) && old(escrow).total_amount > 0 ==> r is Ok,
        old(escrow).status.can_become(final(escrow).status),
        old(escrow).wf() ==> final(escrow).wf(),
{
    if caller != escrow.requester {
        return Err(EscrowError::Unauthorized);
    }
    if escrow.status.is_final() {
        return Err(EscrowError::AlreadyFinalized);
    }
    if escrow.timelock_expiry != 0 && now < escrow.timelock_expiry {
        return Err(EscrowError::TimelockActive);
    }
    let amount: u64 = escrow.total_amount;
    if amount == 0 {
        return Err(EscrowError::InsufficientFunds);
    }
    let refunded_to: Pubkey = escrow.requester;
    escrow.total_amount = 0;
    escrow.status = EscrowStatus::Refunded;
    Ok(EscrowRefunded { escrow: escrow_key, refunded_to, amount })
}

} // verus!
