//! The recipients' confirmations of a proposed release.

use vstd::prelude::*;
use crate::errors::EscrowError;
use crate::events::ReleaseConfirmed;
use crate::helpers::{bit_at, bit_count, count_bits, is_bit_set, lemma_set_bit, set_bit};
use crate::state::{Escrow, EscrowStatus, Pubkey};

verus! {

/// Why `caller` cannot confirm the release, if not: the first of these that
/// applies. No release is pending; the caller is no recipient; the caller has
/// confirmed before.
pub open spec fn confirm_error(escrow: Escrow, caller: Pubkey) -> Option<EscrowError> {
    if escrow.status != EscrowStatus::PendingRelease {
        Some(EscrowError::InvalidStatus)
    } else if !escrow.recipient_seq().contains(caller) {
        Some(EscrowError::RecipientNotFound)
    } else if bit_at(escrow.confirmations, escrow.recipient_index(caller) as u8) {
        Some(EscrowError::AlreadyConfirmed)
    } else {
        None
    }
}

/// Whether as many recipients have confirmed as the threshold asks for.
pub open spec fn quorum_reached(escrow: Escrow) -> bool {
    bit_count(escrow.confirmations) >= escrow.required_confirmations
}

/// The record after the confirmation of recipient `caller`: the caller's bit
/// set, and the escrow `Released` if that completes the quorum.
pub open spec fn confirm_effect(escrow: Escrow, caller: Pubkey) -> Escrow {
    let confirmed = Escrow {
        confirmations: escrow.confirmations | (1u8 << (escrow.recipient_index(caller) as u8)),
        ..escrow
    };
    if quorum_reached(confirmed) {
        Escrow { status: EscrowStatus::Released, ..confirmed }
    } else {
        confirmed
    }
}

/// The record after `caller` tried to confirm: changed where the confirmation
/// is accepted, as it was where it is refused.
pub open spec fn confirm_step(escrow: Escrow, caller: Pubkey) -> Escrow {
    if confirm_error(escrow, caller) is None {
        confirm_effect(escrow, caller)
    } else {
        escrow
    }
}

/// The record after each of `callers` tried to confirm, in that order.
pub open spec fn confirm_all(escrow: Escrow, callers: Seq<Pubkey>) -> Escrow
    decreases callers.len(),
{
    if callers.len() == 0 {
        escrow
    } else {
        confirm_step(confirm_all(escrow, callers.drop_last()), callers.last())
    }
}

/// One attempt to confirm keeps a valid record valid, and keeps the escrow
/// released exactly when the quorum is reached.
pub proof fn lemma_confirm_step(escrow: Escrow, caller: Pubkey)
    requires
        escrow.wf(),
        escrow.status == EscrowStatus::PendingRelease || (escrow.status == EscrowStatus::Released
            && quorum_reached(escrow)),
    ensures
        confirm_step(escrow, caller).wf(),
        confirm_step(escrow, caller).status == EscrowStatus::Released <==> quorum_reached(
            confirm_step(escrow, caller),
        ),
        confirm_step(escrow, caller).status == EscrowStatus::PendingRelease <==> !quorum_reached(
            confirm_step(escrow, caller),
        ),
{
    if confirm_error(escrow, caller) is None {
        escrow.lemma_recipient_has_index(caller);
        lemma_set_bit(escrow.confirmations, escrow.recipient_index(caller) as u8);
    }
}

/// Whatever recipients or strangers try to confirm a pending release, in
/// whatever order and however often, the escrow is released exactly when the
/// confirmations recorded reach the threshold, and is pending until then.
pub proof fn lemma_released_iff_quorum(escrow: Escrow, callers: Seq<Pubkey>)
    requires
        escrow.wf(),
        escrow.status == EscrowStatus::PendingRelease,
    ensures
        confirm_all(escrow, callers).wf(),
        confirm_all(escrow, callers).status == EscrowStatus::Released <==> quorum_reached(
            confirm_all(escrow, callers),
        ),
        confirm_all(escrow, callers).status == EscrowStatus::PendingRelease <==> !quorum_reached(
            confirm_all(escrow, callers),
        ),
    decreases callers.len(),
{
    if callers.len() > 0 {
        lemma_released_iff_quorum(escrow, callers.drop_last());
        lemma_confirm_step(confirm_all(escrow, callers.drop_last()), callers.last());
    }
}

/// A recipient whose confirmation was accepted is refused when confirming
/// again, and the refused call changes nothing, the confirmations included.
/// While the release is still pending the refusal is `AlreadyConfirmed`; once
/// the first confirmation has completed the quorum it is `InvalidStatus`.
pub proof fn lemma_second_confirmation_refused(escrow: Escrow, caller: Pubkey)
    requires
        escrow.in_capacity(),
        confirm_error(escrow, caller) is None,
    ensures
        confirm_error(confirm_effect(escrow, caller), caller) == Some(
            if confirm_effect(escrow, caller).status == EscrowStatus::PendingRelease {
                EscrowError::AlreadyConfirmed
            } else {
                EscrowError::InvalidStatus
            },
        ),
        confirm_step(confirm_effect(escrow, caller), caller) == confirm_effect(escrow, caller),
        confirm_step(confirm_effect(escrow, caller), caller).confirmations == confirm_effect(
            escrow,
            caller,
        ).confirmations,
{
    escrow.lemma_recipient_has_index(caller);
    let i = escrow.recipient_index(caller);
    let after = confirm_effect(escrow, caller);
    lemma_set_bit(escrow.confirmations, i as u8);
    assert(after.recipient_seq() == escrow.recipient_seq());
    assert(after.is_recipient_at(caller, i));
    after.lemma_recipient_index(caller, i);
}

/// Records the confirmation of recipient `caller` for a pending release, and
/// releases the escrow once as many recipients have confirmed as the threshold
/// asks for. The event carries the number of confirmations so far.
pub fn confirm(escrow: &mut Escrow, escrow_key: Pubkey, caller: Pubkey) -> (r: Result<
    ReleaseConfirmed,
    EscrowError,
>)
    requires
        old(escrow).in_capacity(),
    ensures
        match r {
            Ok(event) => {
                &&& confirm_error(*old(escrow), caller) is None
                &&& *final(escrow) == confirm_effect(*old(escrow), caller)
                &&& event == (ReleaseConfirmed {
                    escrow: escrow_key,
                    by: caller,
                    confirmations: bit_count(final(escrow).confirmations) as u8,
                })
            },
            Err(e) => {
                &&& confirm_error(*old(escrow), caller) == Some(e)
                &&& *final(escrow) == *old(escrow)
            },
        },
        *final(escrow) == confirm_step(*old(escrow), caller),
        r is Ok ==> (final(escrow).status == EscrowStatus::Released <==> quorum_reached(
            *final(escrow),
        )),
        old(escrow).status.can_become(final(escrow).status),
        old(escrow).wf() ==> final(escrow).wf(),
{
    if escrow.status != EscrowStatus::PendingRelease {
        return Err(EscrowError::InvalidStatus);
    }
    let idx: usize = match escrow.find_recipient(&caller) {
        Some(idx) => idx,
        None => {
            return Err(EscrowError::RecipientNotFound);
        },
    };
    proof {
        escrow.lemma_recipient_index(caller, idx as int);
        lemma_set_bit(escrow.confirmations, idx as u8);
    }
    if is_bit_set(escrow.confirmations, idx) {
        return Err(EscrowError::AlreadyConfirmed);
    }
    let mut confirmations: u8 = escrow.confirmations;
    set_bit(&mut confirmations, idx);
    escrow.confirmations = confirmations;
    let confirmed: u8 = count_bits(confirmations);
    if confirmed >= escrow.required_confirmations {
        escrow.status = EscrowStatus::Released;
    }
    Ok(ReleaseConfirmed { escrow: escrow_key, by: caller, confirmations: confirmed })
}

} // verus!
