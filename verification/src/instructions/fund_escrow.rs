//! Depositing into an escrow.

use vstd::prelude::*;
use crate::errors::EscrowError;
use crate::events::EscrowFunded;
use crate::state::{Escrow, EscrowStatus, Pubkey};

verus! {

/// Why `amount` cannot be deposited, if not: the first of these that applies.
/// The amount is zero; the escrow is released or refunded already; the balance
/// would leave the 64-bit range.
pub open spec fn fund_error(escrow: Escrow, amount: u64) -> Option<EscrowError> {
    if amount == 0 {
        Some(EscrowError::InvalidAmount)
    } else if escrow.status.is_terminal() {
        Some(EscrowError::AlreadyFinalized)
    } else if escrow.total_amount + amount > u64::MAX {
        Some(EscrowError::Overflow)
    } else {
        None
    }
}

/// The record after a deposit of `amount`: the balance grown by it, and an
/// `Initialized` escrow now `Funded`.
pub open spec fn fund_effect(escrow: Escrow, amount: u64) -> Escrow {
    Escrow {
        total_amount: (escrow.total_amount + amount) as u64,
        status: if escrow.status == EscrowStatus::Initialized {
            EscrowStatus::Funded
        } else {
            escrow.status
        },
        ..escrow
    }
}

/// Records a deposit of `amount` into the holding account. The first deposit
/// makes the escrow `Funded`; later ones only add to the balance.
pub fn fund_escrow(escrow: &mut Escrow, escrow_key: Pubkey, amount: u64) -> (r: Result<
    EscrowFunded,
    EscrowError,
>)
    ensures
        match r {
            Ok(event) => {
                &&& fund_error(*old(escrow), amount) is None
                &&& *final(escrow) == fund_effect(*old(escrow), amount)
                &&& event == (EscrowFunded { escrow: escrow_key, amount })
            },
            Err(e) => {
                &&& fund_error(*old(escrow), amount) == Some(e)
                &&& *final(escrow) == *old(escrow)
            },
        },
        old(escrow).status.can_become(final(escrow).status),
        old(escrow).wf() ==> final(escrow).wf(),
{
    if amount == 0 {
        return Err(EscrowError::InvalidAmount);
    }
    if escrow.status.is_final() {
        return Err(EscrowError::AlreadyFinalized);
    }
    let total: u64 = match escrow.total_amount.checked_add(amount) {
        Some(total) => total,
        None => {
            return Err(EscrowError::Overflow);
        },
    };
    escrow.total_amount = total;
    if escrow.status == EscrowStatus::Initialized {
        escrow.status = EscrowStatus::Funded;
    }
    Ok(EscrowFunded { escrow: escrow_key, amount })
}

} // verus!
