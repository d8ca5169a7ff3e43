//! A recipient's own withdrawal of their share.

use vstd::prelude::*;
use crate::errors::EscrowError;
use crate::events::EscrowReleased;
use crate::helpers::{
    bit_at,
    bit_count,
    calc_distributions,
    count_bits,
    covers_width,
    distribution,
    is_bit_set,
    lemma_bit_count_within,
    lemma_dust_bound,
    lemma_set_bit,
    lemma_share_nonnegative,
    set_bit,
    share,
    shares_total,
};
use crate::state::{Escrow, EscrowStatus, Pubkey};

verus! {

/// The share that recipient `claimant` is owed: the recipient's split of the
/// whole balance, whatever others have withdrawn.
pub open spec fn claim_amount(escrow: Escrow, claimant: Pubkey) -> int {
    share(escrow.total_amount, escrow.splits[escrow.recipient_index(claimant)])
}

/// Why `claimant` cannot withdraw, if not: the first of these that applies.
/// The escrow is not released; the claimant is no recipient; the claimant has
/// withdrawn before; the shares exceed the balance; the claimant's share is
/// zero.
pub open spec fn claim_error(escrow: Escrow, claimant: Pubkey) -> Option<EscrowError> {
    if escrow.status != EscrowStatus::Released {
        Some(EscrowError::InvalidStatus)
    } else if !escrow.recipient_seq().contains(claimant) {
        Some(EscrowError::RecipientNotFound)
    } else if bit_at(escrow.claimed, escrow.recipient_index(claimant) as u8) {
        Some(EscrowError::AlreadyClaimed)
    } else if distribution(escrow.total_amount, escrow.split_seq()) is Err {
        Some(EscrowError::Overflow)
    } else if claim_amount(escrow, claimant) == 0 {
        Some(EscrowError::InvalidSplits)
    } else {
        None
    }
}

/// The record after the withdrawal of recipient `claimant`: the claimant's
/// bit set, and the balance emptied once as many claims are recorded as there
/// are recipients.
pub open spec fn claim_effect(escrow: Escrow, claimant: Pubkey) -> Escrow {
    let claimed = escrow.claimed | (1u8 << (escrow.recipient_index(claimant) as u8));
    Escrow {
        claimed,
        total_amount: if bit_count(claimed) >= escrow.recipient_count {
            0
        } else {
            escrow.total_amount
        },
        ..escrow
    }
}

/// A recipient whose withdrawal was accepted is refused with `AlreadyClaimed`
/// when claiming again, so that the refused call changes nothing.
pub proof fn lemma_second_claim_refused(escrow: Escrow, claimant: Pubkey)
    requires
        escrow.in_capacity(),
        claim_error(escrow, claimant) is None,
    ensures
        claim_error(claim_effect(escrow, claimant), claimant) == Some(EscrowError::AlreadyClaimed),
{
    escrow.lemma_recipient_has_index(claimant);
    let i = escrow.recipient_index(claimant);
    let after = claim_effect(escrow, claimant);
    lemma_set_bit(escrow.claimed, i as u8);
    assert(after.recipient_seq() == escrow.recipient_seq());
    assert(after.is_recipient_at(claimant, i));
    after.lemma_recipient_index(claimant, i);
}

/// Nothing can be withdrawn from an escrow whose balance is zero, as it is
/// after a distribution to all recipients.
pub proof fn lemma_no_claim_on_empty(escrow: Escrow, claimant: Pubkey)
    requires
        escrow.total_amount == 0,
    ensures
        claim_error(escrow, claimant) is Some,
{
    let split = escrow.splits[escrow.recipient_index(claimant)];
    assert(0int * split as int == 0);
}

/// The record after `claimant` tried to withdraw: changed where the claim is
/// accepted, as it was where it is refused.
pub open spec fn claim_step(escrow: Escrow, claimant: Pubkey) -> Escrow {
    if claim_error(escrow, claimant) is None {
        claim_effect(escrow, claimant)
    } else {
        escrow
    }
}

/// What `claimant` is paid when trying to withdraw: the share where the claim
/// is accepted, nothing where it is refused.
pub open spec fn claim_paid(escrow: Escrow, claimant: Pubkey) -> int {
    if claim_error(escrow, claimant) is None {
        claim_amount(escrow, claimant)
    } else {
        0
    }
}

/// The record after each of `claimants` tried to withdraw, in that order.
pub open spec fn claim_all(escrow: Escrow, claimants: Seq<Pubkey>) -> Escrow
    decreases claimants.len(),
{
    if claimants.len() == 0 {
        escrow
    } else {
        claim_step(claim_all(escrow, claimants.drop_last()), claimants.last())
    }
}

/// What is paid in all when each of `claimants` tries to withdraw, in that
/// order.
pub open spec fn claims_paid(escrow: Escrow, claimants: Seq<Pubkey>) -> int
    decreases claimants.len(),
{
    if claimants.len() == 0 {
        0
    } else {
        claims_paid(escrow, claimants.drop_last()) + claim_paid(
            claim_all(escrow, claimants.drop_last()),
            claimants.last(),
        )
    }
}

/// The sum of the shares of `total` of those recipients whose bit is set in
/// `claimed`.
pub open spec fn claimed_shares(total: u64, splits: Seq<u16>, claimed: u8) -> int
    decreases splits.len(),
{
    if splits.len() == 0 {
        0
    } else {
        claimed_shares(total, splits.drop_last(), claimed) + if bit_at(
            claimed,
            (splits.len() - 1) as u8,
        ) {
            share(total, splits.last())
        } else {
            0
        }
    }
}

/// The shares claimed are part of all shares.
pub proof fn lemma_claimed_shares_bound(total: u64, splits: Seq<u16>, claimed: u8)
    ensures
        0 <= claimed_shares(total, splits, claimed) <= shares_total(total, splits),
    decreases splits.len(),
{
    if splits.len() > 0 {
        lemma_claimed_shares_bound(total, splits.drop_last(), claimed);
        lemma_share_nonnegative(total, splits.last());
    }
}

/// Masks that agree on the bits of the recipients give the same claimed sum.
proof fn lemma_claimed_shares_same_bits(total: u64, splits: Seq<u16>, a: u8, b: u8)
    requires
        splits.len() <= 8,
        forall|j: u8| j < splits.len() ==> bit_at(a, j) == bit_at(b, j),
    ensures
        claimed_shares(total, splits, a) == claimed_shares(total, splits, b),
    decreases splits.len(),
{
    if splits.len() > 0 {
        lemma_claimed_shares_same_bits(total, splits.drop_last(), a, b);
        let last = (splits.len() - 1) as u8;
        assert(bit_at(a, last) == bit_at(b, last));
    }
}

/// Recording the claim of a recipient who had not claimed adds that
/// recipient's share to the claimed sum.
pub proof fn lemma_claimed_shares_grow(total: u64, splits: Seq<u16>, claimed: u8, idx: u8)
    requires
        splits.len() <= 8,
        idx < splits.len(),
        !bit_at(claimed, idx),
    ensures
        claimed_shares(total, splits, claimed | (1u8 << idx)) == claimed_shares(
            total,
            splits,
            claimed,
        ) + share(total, splits[idx as int]),
    decreases splits.len(),
{
    lemma_set_bit(claimed, idx);
    let rest = splits.drop_last();
    if idx == splits.len() - 1 {
        lemma_claimed_shares_same_bits(total, rest, claimed, claimed | (1u8 << idx));
    } else {
        lemma_claimed_shares_grow(total, rest, claimed, idx);
        let last = (splits.len() - 1) as u8;
        assert(bit_at(claimed | (1u8 << idx), last) == bit_at(claimed, last));
    }
}

/// What a run of claim attempts leaves as it found it, and how what it paid
/// relates to the claims recorded.
spec fn claims_invariant(start: Escrow, now: Escrow, paid: int) -> bool {
    let total = start.total_amount;
    let splits = start.split_seq();
    &&& now.wf()
    &&& now == Escrow { claimed: now.claimed, total_amount: now.total_amount, ..start }
    &&& paid >= 0
    &&& if now.total_amount == total {
        paid + claimed_shares(total, splits, start.claimed) == claimed_shares(
            total,
            splits,
            now.claimed,
        )
    } else {
        now.total_amount == 0 && paid + claimed_shares(total, splits, start.claimed)
            <= shares_total(total, splits)
    }
}

/// One claim attempt keeps the invariant of a run of claims.
proof fn lemma_claim_step_invariant(start: Escrow, now: Escrow, paid: int, claimant: Pubkey)
    requires
        claims_invariant(start, now, paid),
    ensures
        claims_invariant(start, claim_step(now, claimant), paid + claim_paid(now, claimant)),
{
    let total = start.total_amount;
    let splits = start.split_seq();
    if claim_error(now, claimant) is None {
        if now.total_amount != total {
            lemma_no_claim_on_empty(now, claimant);
        }
        now.lemma_recipient_has_index(claimant);
        let i = now.recipient_index(claimant);
        let after = claim_effect(now, claimant);
        assert(now.split_seq() == splits);
        assert(splits[i] == now.splits[i]);
        lemma_set_bit(now.claimed, i as u8);
        lemma_share_nonnegative(total, now.splits[i]);
        lemma_claimed_shares_grow(total, splits, now.claimed, i as u8);
        lemma_claimed_shares_bound(total, splits, after.claimed);
        assert(after.recipient_seq() == now.recipient_seq());
        assert(after.split_seq() == now.split_seq());
    }
}

/// A run of claim attempts keeps its invariant.
proof fn lemma_claim_all_invariant(escrow: Escrow, claimants: Seq<Pubkey>)
    requires
        escrow.wf(),
    ensures
        claims_invariant(escrow, claim_all(escrow, claimants), claims_paid(escrow, claimants)),
    decreases claimants.len(),
{
    if claimants.len() > 0 {
        lemma_claim_all_invariant(escrow, claimants.drop_last());
        lemma_claim_step_invariant(
            escrow,
            claim_all(escrow, claimants.drop_last()),
            claims_paid(escrow, claimants.drop_last()),
            claimants.last(),
        );
    }
}

/// No recipient is paid twice and nobody more than their share: whoever tries
/// to withdraw, in whatever order and however often, what is paid in all,
/// together with the shares claimed before, never exceeds the sum of the
/// shares, and so never the balance.
pub proof fn lemma_claims_within_balance(escrow: Escrow, claimants: Seq<Pubkey>)
    requires
        escrow.wf(),
    ensures
        claim_all(escrow, claimants).wf(),
        0 <= claims_paid(escrow, claimants),
        claims_paid(escrow, claimants) + claimed_shares(
            escrow.total_amount,
            escrow.split_seq(),
            escrow.claimed,
        ) <= shares_total(escrow.total_amount, escrow.split_seq()) <= escrow.total_amount,
        claims_paid(escrow, claimants) <= escrow.total_amount,
{
    lemma_claimed_shares_bound(escrow.total_amount, escrow.split_seq(), escrow.claimed);
    lemma_claim_all_invariant(escrow, claimants);
    lemma_dust_bound(escrow.total_amount, escrow.split_seq());
    lemma_claimed_shares_bound(
        escrow.total_amount,
        escrow.split_seq(),
        claim_all(escrow, claimants).claimed,
    );
}

/// Withdraws the share of recipient `claimant` from a released escrow. The
/// event names the amount to move from the holding account to the claimant.
/// Once every recipient has withdrawn, the balance is set to zero.
pub fn claim(escrow: &mut Escrow, escrow_key: Pubkey, claimant: Pubkey) -> (r: Result<
    EscrowReleased,
    EscrowError,
>)
    requires
        old(escrow).in_capacity(),
    ensures
        match r {
            Ok(event) => {
                &&& claim_error(*old(escrow), claimant) is None
                &&& *final(escrow) == claim_effect(*old(escrow), claimant)
                &&& event.escrow == escrow_key
                &&& event.total_distributed as int == claim_amount(*old(escrow), claimant)
                &&& 0 < event.total_distributed <= old(escrow).total_amount
            },
            Err(e) => {
                &&& claim_error(*old(escrow), claimant) == Some(e)
                &&& *final(escrow) == *old(escrow)
            },
        },
        *final(escrow) == claim_step(*old(escrow), claimant),
        r is Ok && old(escrow).wf() ==> (final(escrow).total_amount == 0 <==> covers_width(
            final(escrow).claimed,
            final(escrow).recipient_count,
        )),
        old(escrow).status.can_become(final(escrow).status),
        old(escrow).wf() ==> final(escrow).wf(),
{
    if escrow.status != EscrowStatus::Released {
        return Err(EscrowError::InvalidStatus);
    }
    let rc: usize = escrow.recipient_count as usize;
    let idx: usize = match escrow.find_recipient(&claimant) {
        Some(idx) => idx,
        None => {
            return Err(EscrowError::RecipientNotFound);
        },
    };
    proof {
        escrow.lemma_recipient_index(claimant, idx as int);
        lemma_set_bit(escrow.claimed, idx as u8);
    }
    if is_bit_set(escrow.claimed, idx) {
        return Err(EscrowError::AlreadyClaimed);
    }
    let distributions = match calc_distributions(escrow.total_amount, &escrow.splits, rc) {
        Ok(d) => d,
        Err(e) => {
            return Err(e);
        },
    };
    let amount: u64 = distributions[idx];
    proof {
        assert(escrow.split_seq()[idx as int] == escrow.splits[idx as int]);
        crate::helpers::lemma_share_within_total(escrow.total_amount, escrow.split_seq(), idx as int);
    }
    if amount == 0 {
        return Err(EscrowError::InvalidSplits);
    }
    let mut claimed: u8 = escrow.claimed;
    set_bit(&mut claimed, idx);
    escrow.claimed = claimed;
    proof {
        if old(escrow).wf() {
            lemma_bit_count_within(claimed, escrow.recipient_count);
        }
    }
    if count_bits(claimed) as usize >= rc {
        escrow.total_amount = 0;
    }
    Ok(EscrowReleased { escrow: escrow_key, total_distributed: amount })
}

} // verus!
