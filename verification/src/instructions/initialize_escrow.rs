//! Creating an escrow record.

use vstd::prelude::*;
use crate::errors::EscrowError;
use crate::events::EscrowCreated;
use crate::helpers::{lemma_empty_mask, split_sum, sum_nonzero_splits};
use crate::state::{
    has_duplicate,
    BASIS_POINTS_DENOM,
    Escrow,
    EscrowStatus,
    MAX_RECIPIENTS,
    Pubkey,
};

verus! {

/// What the funder chooses when creating an escrow.
#[derive(Clone, Debug, PartialEq, Eq)]
pub struct InitializeParams {
    /// The bounty the escrow pays for.
    pub bounty_id: [u8; 32],
    /// The asset to hold; the all-zero identity for the native asset.
    pub token_mint: Pubkey,
    /// The recipients, at most eight.
    pub recipients: Vec<Pubkey>,
    /// One weight per recipient, in basis points; they sum to 10000.
    pub splits: Vec<u16>,
    /// How many confirmations release the escrow.
    pub required_confirmations: u8,
    /// Who may resolve a dispute; the all-zero identity for nobody.
    pub arbiter: Pubkey,
    /// From when on the funder may take the deposit back; 0 for any time.
    pub timelock_expiry: i64,
}

/// Why an escrow cannot be created from `params` by `requester` at time
/// `now`, if it cannot: the first of these that applies. There are no
/// recipients, or more than eight; the split table has another length than the
/// recipient list; the threshold is zero or above the number of recipients; a
/// recipient is listed twice; a split is zero; the splits do not sum to 10000;
/// a deadline is set that is not after `now`; an arbiter is set who is the
/// funder.
pub open spec fn initialize_error(requester: Pubkey, now: i64, params: InitializeParams) -> Option<
    EscrowError,
> {
    let n = params.recipients@.len();
    if n == 0 || n > MAX_RECIPIENTS {
        Some(EscrowError::InvalidRecipientCount)
    } else if params.splits@.len() != n {
        Some(EscrowError::InvalidSplits)
    } else if params.required_confirmations < 1 || params.required_confirmations > n {
        Some(EscrowError::InvalidRecipientCount)
    } else if !params.recipients@.no_duplicates() {
        Some(EscrowError::DuplicateRecipient)
    } else if params.splits@.contains(0u16) {
        Some(EscrowError::ZeroSplit)
    } else if split_sum(params.splits@) != BASIS_POINTS_DENOM as int {
        Some(EscrowError::InvalidSplits)
    } else if params.timelock_expiry != 0 && params.timelock_expiry <= now {
        Some(EscrowError::InvalidTimelock)
    } else if !params.arbiter.is_unset() && params.arbiter == requester {
        Some(EscrowError::InvalidArbiter)
    } else {
        None
    }
}

/// Creates the record of a new escrow at address `escrow_key`, funded by
/// `requester` and holding its deposit in `vault`, at time `now`.
///
/// The new record is `Initialized`, holds nothing, and has no confirmation
/// and no claim recorded. Nothing is created where `params` is refused.
pub fn initialize_escrow(
    escrow_key: Pubkey,
    requester: Pubkey,
    vault: Pubkey,
    bump: u8,
    now: i64,
    params: &InitializeParams,
) -> (r: Result<(Escrow, EscrowCreated), EscrowError>)
    ensures
        match r {
            Ok((escrow, event)) => {
                &&& initialize_error(requester, now, *params) is None
                &&& escrow.wf()
                &&& escrow.requester == requester
                &&& escrow.bounty_id == params.bounty_id
                &&& escrow.token_mint == params.token_mint
                &&& escrow.vault == vault
                &&& escrow.total_amount == 0
                &&& escrow.recipient_count as int == params.recipients@.len()
                &&& escrow.recipient_seq() == params.recipients@
                &&& escrow.split_seq() == params.splits@
                &&& forall|i: int|
                    escrow.recipient_count <= i < MAX_RECIPIENTS ==> escrow.recipients[i].is_unset()
                        && escrow.splits[i] == 0
                &&& escrow.confirmations == 0
                &&& escrow.claimed == 0
                &&& escrow.status == EscrowStatus::Initialized
                &&& escrow.required_confirmations == params.required_confirmations
                &&& escrow.arbiter == params.arbiter
                &&& escrow.created_at == now
                &&& escrow.timelock_expiry == params.timelock_expiry
                &&& escrow.bump == bump
                &&& event == (EscrowCreated {
                    escrow: escrow_key,
                    requester,
                    bounty_id: params.bounty_id,
                })
            },
            Err(e) => initialize_error(requester, now, *params) == Some(e),
        },
{
    let rcount: usize = params.recipients.len();
    if rcount == 0 || rcount > MAX_RECIPIENTS {
        return Err(EscrowError::InvalidRecipientCount);
    }
    if params.splits.len() != rcount {
        return Err(EscrowError::InvalidSplits);
    }
    if params.required_confirmations < 1 || params.required_confirmations as usize > rcount {
        return Err(EscrowError::InvalidRecipientCount);
    }
    proof {
        assert(params.recipients@.take(rcount as int) =~= params.recipients@);
        assert(params.splits@.take(rcount as int) =~= params.splits@);
    }
    if has_duplicate(params.recipients.as_slice(), rcount) {
        return Err(EscrowError::DuplicateRecipient);
    }
    let sum: u128 = match sum_nonzero_splits(params.splits.as_slice(), rcount) {
        Some(sum) => sum,
        None => {
            return Err(EscrowError::ZeroSplit);
        },
    };
    if sum != BASIS_POINTS_DENOM as u128 {
        return Err(EscrowError::InvalidSplits);
    }
    if params.timelock_expiry != 0 && params.timelock_expiry <= now {
        return Err(EscrowError::InvalidTimelock);
    }
    if !params.arbiter.is_default() && params.arbiter == requester {
        return Err(EscrowError::InvalidArbiter);
    }
    let unset: Pubkey = Pubkey::default();
    let mut recipients: [Pubkey; MAX_RECIPIENTS] = [unset;MAX_RECIPIENTS];
    let mut splits: [u16; MAX_RECIPIENTS] = [0u16;MAX_RECIPIENTS];
    let mut i: usize = 0;
    while i < rcount
        invariant
            i <= rcount <= MAX_RECIPIENTS,
            rcount == params.recipients@.len(),
            rcount == params.splits@.len(),
            unset.is_unset(),
            forall|j: int| 0 <= j < i ==> recipients[j] == params.recipients@[j],
            forall|j: int| 0 <= j < i ==> splits[j] == params.splits@[j],
            forall|j: int| i <= j < MAX_RECIPIENTS ==> recipients[j] == unset,
            forall|j: int| i <= j < MAX_RECIPIENTS ==> splits[j] == 0,
        decreases rcount - i,
    {
        recipients[i] = params.recipients[i];
        splits[i] = params.splits[i];
        i += 1;
    }
    let escrow = Escrow {
        requester,
        bounty_id: params.bounty_id,
        token_mint: params.token_mint,
        vault,
        total_amount: 0,
        recipient_count: rcount as u8,
        recipients,
        splits,
        confirmations: 0,
        status: EscrowStatus::Initialized,
        required_confirmations: params.required_confirmations,
        arbiter: params.arbiter,
        created_at: now,
        timelock_expiry: params.timelock_expiry,
        bump,
        claimed: 0,
    };
    proof {
        lemma_empty_mask();
        assert(escrow.recipient_seq() =~= params.recipients@);
        assert(escrow.split_seq() =~= params.splits@);
        assert forall|j: int| 0 <= j < escrow.recipient_count implies escrow.splits[j] > 0 by {
            assert(params.splits@[j] != 0);
        }
    }
    let event = EscrowCreated { escrow: escrow_key, requester, bounty_id: params.bounty_id };
    Ok((escrow, event))
}

} // verus!
