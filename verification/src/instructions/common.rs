//! Paying out a released escrow to all recipients at once.

use vstd::prelude::*;
use crate::errors::EscrowError;
use crate::events::EscrowReleased;
use crate::helpers::{
    calc_distributions,
    distribution,
    leftover,
    lemma_share_nonnegative,
    lemma_shares_total_monotonic,
    share,
    shares_total,
};
use crate::state::{Escrow, EscrowStatus, Pubkey};
use crate::token_account::{is_token_account, packed_mint, packed_owner, unpack_token_account};

verus! {

/// One transfer out of the holding account: `amount` to the destination
/// account at position `destination` of the accounts handed in.
#[derive(Clone, Copy, Debug, PartialEq, Eq)]
pub struct Payout {
    pub destination: usize,
    pub amount: u64,
}

/// What a distribution asks the caller to do and to report.
#[derive(Clone, Debug, PartialEq, Eq)]
pub struct Distribution {
    /// The transfers to make out of the holding account, in order.
    pub payouts: Vec<Payout>,
    /// One event for each recipient that is paid, in the recipients' order.
    pub events: Vec<EscrowReleased>,
    /// The sum that goes to recipients.
    pub distributed: u64,
}

/// Why recipient `i` cannot be paid into the account stored as `data`, if it
/// cannot. A recipient whose share is zero is not paid and its account not
/// looked at.
pub open spec fn recipient_destination_error(escrow: Escrow, data: Seq<u8>, i: int) -> Option<
    EscrowError,
> {
    if share(escrow.total_amount, escrow.splits[i]) == 0 {
        None
    } else if !is_token_account(data) {
        Some(EscrowError::InvalidAccountData)
    } else if packed_mint(data) != escrow.token_mint@ {
        Some(EscrowError::InvalidMint)
    } else if packed_owner(data) != escrow.recipients[i]@ {
        Some(EscrowError::RecipientNotFound)
    } else {
        None
    }
}

/// The error of the first of the recipients below `upto` that cannot be paid,
/// if there is one.
pub open spec fn first_destination_error(escrow: Escrow, accounts: Seq<Seq<u8>>, upto: int)
    -> Option<EscrowError>
    decreases upto,
{
    if upto <= 0 {
        None
    } else {
        match first_destination_error(escrow, accounts, upto - 1) {
            Some(e) => Some(e),
            None => recipient_destination_error(escrow, accounts[upto - 1], upto - 1),
        }
    }
}

/// Once a recipient cannot be paid, the first error stays what it is however
/// many more recipients are looked at.
pub proof fn lemma_first_destination_error_stays(
    escrow: Escrow,
    accounts: Seq<Seq<u8>>,
    at: int,
    upto: int,
)
    requires
        0 <= at < upto,
        first_destination_error(escrow, accounts, at) is None,
        recipient_destination_error(escrow, accounts[at], at) is Some,
    ensures
        first_destination_error(escrow, accounts, upto) == recipient_destination_error(
            escrow,
            accounts[at],
            at,
        ),
    decreases upto - at,
{
    if upto > at + 1 {
        lemma_first_destination_error_stays(escrow, accounts, at, upto - 1);
    }
}

/// Why the leftover cannot go back to the funder into the account stored as
/// `data`, if it cannot. Without a leftover the account is not looked at.
pub open spec fn funder_destination_error(escrow: Escrow, data: Seq<u8>) -> Option<EscrowError> {
    if leftover(escrow.total_amount, escrow.split_seq()) == 0 {
        None
    } else if !is_token_account(data) {
        Some(EscrowError::InvalidAccountData)
    } else if packed_owner(data) != escrow.requester@ {
        Some(EscrowError::Unauthorized)
    } else if packed_mint(data) != escrow.token_mint@ {
        Some(EscrowError::InvalidMint)
    } else {
        None
    }
}

/// Why a distribution is refused, if it is: the first of these that applies.
/// The escrow is not released; it has no recipients; fewer accounts are handed
/// in than one per recipient and one for the funder; the shares exceed the
/// balance; a recipient's account is not fit, in the recipients' order; the
/// funder's account is not fit.
pub open spec fn distribute_error(escrow: Escrow, accounts: Seq<Seq<u8>>) -> Option<EscrowError> {
    if escrow.status != EscrowStatus::Released {
        Some(EscrowError::InvalidStatus)
    } else if escrow.recipient_count == 0 {
        Some(EscrowError::InvalidRecipientCount)
    } else if accounts.len() < escrow.recipient_count + 1 {
        Some(EscrowError::RecipientNotFound)
    } else if distribution(escrow.total_amount, escrow.split_seq()) is Err {
        Some(EscrowError::Overflow)
    } else if first_destination_error(escrow, accounts, escrow.recipient_count as int) is Some {
        first_destination_error(escrow, accounts, escrow.recipient_count as int)
    } else {
        funder_destination_error(escrow, accounts[escrow.recipient_count as int])
    }
}

/// The transfers to the recipients: in the recipients' order, to each
/// recipient whose share is not zero, that share into the account at the
/// recipient's own position.
pub open spec fn recipient_payouts(total: u64, splits: Seq<u16>) -> Seq<Payout>
    decreases splits.len(),
{
    if splits.len() == 0 {
        Seq::empty()
    } else {
        let before = recipient_payouts(total, splits.drop_last());
        let amount = share(total, splits.last());
        if amount > 0 {
            before.push(Payout { destination: (splits.len() - 1) as usize, amount: amount as u64 })
        } else {
            before
        }
    }
}

/// All transfers of a distribution: those to the recipients, then the
/// leftover, if there is one, into the account that follows the recipients'.
pub open spec fn payout_plan(total: u64, splits: Seq<u16>) -> Seq<Payout> {
    let to_recipients = recipient_payouts(total, splits);
    let rest = leftover(total, splits);
    if rest > 0 {
        to_recipients.push(Payout { destination: splits.len() as usize, amount: rest as u64 })
    } else {
        to_recipients
    }
}

/// The events of a distribution: for each transfer to a recipient, in order,
/// that the amount was paid out of the escrow at `escrow_key`.
pub open spec fn recipient_events(escrow_key: Pubkey, total: u64, splits: Seq<u16>) -> Seq<
    EscrowReleased,
> {
    Seq::new(
        recipient_payouts(total, splits).len(),
        |i: int|
            EscrowReleased {
                escrow: escrow_key,
                total_distributed: recipient_payouts(total, splits)[i].amount,
            },
    )
}

/// The sum of the amounts of a sequence of transfers.
pub open spec fn payouts_sum(payouts: Seq<Payout>) -> int
    decreases payouts.len(),
{
    if payouts.len() == 0 {
        0
    } else {
        payouts_sum(payouts.drop_last()) + payouts.last().amount as int
    }
}

/// The transfers to the recipients move the sum of the shares.
pub proof fn lemma_recipient_payouts_sum(total: u64, splits: Seq<u16>)
    requires
        shares_total(total, splits) <= total as int,
    ensures
        payouts_sum(recipient_payouts(total, splits)) == shares_total(total, splits),
    decreases splits.len(),
{
    if splits.len() > 0 {
        let rest = splits.drop_last();
        lemma_share_nonnegative(total, splits.last());
        assert(rest =~= splits.take(splits.len() - 1));
        lemma_shares_total_monotonic(total, splits, splits.len() - 1);
        lemma_recipient_payouts_sum(total, rest);
        let before = recipient_payouts(total, rest);
        let amount = share(total, splits.last());
        if amount > 0 {
            let p = Payout { destination: (splits.len() - 1) as usize, amount: amount as u64 };
            assert(before.push(p).drop_last() =~= before);
        }
    }
}

/// No value is lost or made: where the shares do not exceed the balance, the
/// transfers of a distribution move exactly the balance.
pub proof fn lemma_payout_plan_conserves(total: u64, splits: Seq<u16>)
    requires
        distribution(total, splits) is Ok,
    ensures
        payouts_sum(payout_plan(total, splits)) == total as int,
{
    lemma_recipient_payouts_sum(total, splits);
    lemma_shares_total_monotonic(total, splits, 0);
    let to_recipients = recipient_payouts(total, splits);
    let rest = leftover(total, splits);
    if rest > 0 {
        let p = Payout { destination: splits.len() as usize, amount: rest as u64 };
        assert(to_recipients.push(p).drop_last() =~= to_recipients);
    }
}

/// The stored data of the accounts handed in, as plain bytes.
pub open spec fn accounts_data(accounts: &Vec<Vec<u8>>) -> Seq<Seq<u8>> {
    Seq::new(accounts@.len(), |i: int| accounts@[i]@)
}

/// Plans the payout of a released escrow to all recipients at once and empties
/// the record's balance.
///
/// `remaining_accounts` holds the stored data of the destination accounts: one
/// per recipient, in the recipients' order, then the funder's. Each recipient
/// with a share above zero is paid that share into an account of the escrow's
/// asset that the recipient owns; what rounding leaves over goes back to the
/// funder. The result lists the transfers to make from the holding account, in
/// order, an event for each recipient paid, and the sum that goes to
/// recipients. The transfers move exactly the balance.
///
/// This pays everyone in one call and keeps no per-recipient record: a
/// deployment offers either this or the recipients' own claims.
pub fn distribute_spl(
    escrow: &mut Escrow,
    escrow_key: Pubkey,
    remaining_accounts: &Vec<Vec<u8>>,
) -> (r: Result<Distribution, EscrowError>)
    requires
        old(escrow).in_capacity(),
    ensures
        match r {
            Ok(plan) => {
                &&& distribute_error(*old(escrow), accounts_data(remaining_accounts)) is None
                &&& plan.payouts@ == payout_plan(old(escrow).total_amount, old(escrow).split_seq())
                &&& plan.events@ == recipient_events(
                    escrow_key,
                    old(escrow).total_amount,
                    old(escrow).split_seq(),
                )
                &&& plan.distributed as int == shares_total(
                    old(escrow).total_amount,
                    old(escrow).split_seq(),
                )
                &&& payouts_sum(plan.payouts@) == old(escrow).total_amount
                &&& *final(escrow) == (Escrow { total_amount: 0, ..*old(escrow) })
            },
            Err(e) => {
                &&& distribute_error(*old(escrow), accounts_data(remaining_accounts)) == Some(e)
                &&& *final(escrow) == *old(escrow)
            },
        },
        old(escrow).status.can_become(final(escrow).status),
        old(escrow).wf() ==> final(escrow).wf(),
{
    let ghost accounts = accounts_data(remaining_accounts);
    let ghost before = *escrow;
    if escrow.status != EscrowStatus::Released {
        return Err(EscrowError::InvalidStatus);
    }
    let rc: usize = escrow.recipient_count as usize;
    if rc == 0 {
        return Err(EscrowError::InvalidRecipientCount);
    }
    if remaining_accounts.len() < rc + 1 {
        return Err(EscrowError::RecipientNotFound);
    }
    let total: u64 = escrow.total_amount;
    let distributions = match calc_distributions(total, &escrow.splits, rc) {
        Ok(d) => d,
        Err(e) => {
            return Err(e);
        },
    };
    let ghost table = before.split_seq();
    let mut payouts: Vec<Payout> = Vec::new();
    let mut events: Vec<EscrowReleased> = Vec::new();
    let mut distributed_total: u64 = 0;
    let mut i: usize = 0;
    while i < rc
        invariant
            i <= rc <= 8,
            rc == before.recipient_count,
            *escrow == before,
            before == *old(escrow),
            before.status == EscrowStatus::Released,
            total == before.total_amount,
            table == before.split_seq(),
            accounts == accounts_data(remaining_accounts),
            accounts.len() >= rc + 1,
            distribution(total, table) == Ok::<Seq<u64>, EscrowError>(distributions@),
            first_destination_error(before, accounts, i as int) is None,
            payouts@ == recipient_payouts(total, table.take(i as int)),
            events@.len() == payouts@.len(),
            forall|j: int|
                0 <= j < events@.len() ==> events@[j] == (EscrowReleased {
                    escrow: escrow_key,
                    total_distributed: payouts@[j].amount,
                }),
            distributed_total as int == shares_total(total, table.take(i as int)),
        decreases rc - i,
    {
        let amount: u64 = distributions[i];
        proof {
            assert(table.take(i as int + 1).drop_last() =~= table.take(i as int));
            assert(table.take(i as int + 1).last() == before.splits[i as int]);
            lemma_share_nonnegative(total, before.splits[i as int]);
            lemma_shares_total_monotonic(total, table, i as int + 1);
            assert(amount as int == share(total, before.splits[i as int]));
            assert(accounts[i as int] == remaining_accounts@[i as int]@);
            if recipient_destination_error(before, accounts[i as int], i as int) is Some {
                lemma_first_destination_error_stays(before, accounts, i as int, rc as int);
            }
        }
        if amount != 0 {
            match unpack_token_account(remaining_accounts[i].as_slice()) {
                Err(_) => {
                    return Err(EscrowError::InvalidAccountData);
                },
                Ok(account) => {
                    proof {
                        Pubkey::lemma_view_injective(account.mint, before.token_mint);
                        Pubkey::lemma_view_injective(account.owner, before.recipients[i as int]);
                    }
                    if account.mint != escrow.token_mint {
                        return Err(EscrowError::InvalidMint);
                    }
                    if account.owner != escrow.recipients[i] {
                        return Err(EscrowError::RecipientNotFound);
                    }
                },
            }
            payouts.push(Payout { destination: i, amount });
            events.push(EscrowReleased { escrow: escrow_key, total_distributed: amount });
            distributed_total = distributed_total + amount;
        }
        i += 1;
    }
    proof {
        assert(table.take(rc as int) =~= table);
        lemma_payout_plan_conserves(total, table);
        assert(events@ =~= recipient_events(escrow_key, total, table));
        assert(accounts[rc as int] == remaining_accounts@[rc as int]@);
    }
    let rest: u64 = total - distributed_total;
    if rest > 0 {
        match unpack_token_account(remaining_accounts[rc].as_slice()) {
            Err(_) => {
                return Err(EscrowError::InvalidAccountData);
            },
            Ok(account) => {
                proof {
                    Pubkey::lemma_view_injective(account.mint, before.token_mint);
                    Pubkey::lemma_view_injective(account.owner, before.requester);
                }
                if account.owner != escrow.requester {
                    return Err(EscrowError::Unauthorized);
                }
                if account.mint != escrow.token_mint {
                    return Err(EscrowError::InvalidMint);
                }
            },
        }
        payouts.push(Payout { destination: rc, amount: rest });
    }
    escrow.total_amount = 0;
    Ok(Distribution { payouts, events, distributed: distributed_total })
}

} // verus!
