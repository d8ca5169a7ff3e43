//! The escrow record, its status and the identities it refers to.

use vstd::prelude::*;
use vstd::std_specs::cmp::PartialEqSpecImpl;
use crate::helpers::{bit_count, count_bits, fits_width, split_sum, sum_nonzero_splits, within_width};

verus! {

/// The most recipients one escrow can pay.
pub const MAX_RECIPIENTS: usize = 8;

/// The number of basis points that make a whole.
pub const BASIS_POINTS_DENOM: u16 = 10_000;

/// The stored code of [`EscrowStatus::Initialized`].
pub const STATUS_INITIALIZED: u8 = 0;

/// The stored code of [`EscrowStatus::Funded`].
pub const STATUS_FUNDED: u8 = 1;

/// The stored code of [`EscrowStatus::PendingRelease`].
pub const STATUS_PENDING: u8 = 2;

/// The stored code of [`EscrowStatus::Released`].
pub const STATUS_RELEASED: u8 = 3;

/// The stored code of [`EscrowStatus::Disputed`].
pub const STATUS_DISPUTED: u8 = 4;

/// The stored code of [`EscrowStatus::Refunded`].
pub const STATUS_REFUNDED: u8 = 5;

/// A 32-byte account identity. The identity whose bytes are all zero stands
/// for "none" wherever an identity is optional.
#[derive(Clone, Copy, Debug, Eq)]
pub struct Pubkey {
    pub bytes: [u8; 32],
}

impl PartialEq for Pubkey {
    fn eq(&self, other: &Pubkey) -> (r: bool) {
        let mut i: usize = 0;
        while i < 32
            invariant
                i <= 32,
                forall|j: int| 0 <= j < i ==> self.bytes[j] == other.bytes[j],
            decreases 32 - i,
        {
            if self.bytes[i] != other.bytes[i] {
                return false;
            }
            i += 1;
        }
        proof {
            assert(self.bytes =~= other.bytes);
        }
        true
    }
}

impl PartialEqSpecImpl for Pubkey {
    open spec fn obeys_eq_spec() -> bool {
        true
    }

    open spec fn eq_spec(&self, other: &Pubkey) -> bool {
        *self == *other
    }
}

impl View for Pubkey {
    type V = Seq<u8>;

    /// The identity's 32 bytes.
    open spec fn view(&self) -> Seq<u8> {
        self.bytes@
    }
}

impl Pubkey {
    /// Identities are equal exactly when their bytes are.
    pub proof fn lemma_view_injective(a: Pubkey, b: Pubkey)
        ensures
            (a@ == b@) == (a == b),
            a@.len() == 32,
    {
        if a@ == b@ {
            assert forall|i: int| 0 <= i < 32 implies a.bytes[i] == b.bytes[i] by {
                assert(a.bytes[i] == a@[i]);
                assert(b.bytes[i] == b@[i]);
            }
            assert(a.bytes =~= b.bytes);
        }
    }

    /// Whether this is the all-zero identity that stands for "none".
    pub open spec fn is_unset(&self) -> bool {
        forall|i: int| 0 <= i < 32 ==> self.bytes[i] == 0
    }

    /// Tells whether this is the all-zero identity.
    pub fn is_default(&self) -> (r: bool)
        ensures
            r == self.is_unset(),
    {
        let mut i: usize = 0;
        while i < 32
            invariant
                i <= 32,
                forall|j: int| 0 <= j < i ==> self.bytes[j] == 0,
            decreases 32 - i,
        {
            if self.bytes[i] != 0 {
                return false;
            }
            i += 1;
        }
        true
    }
}

impl Default for Pubkey {
    fn default() -> (r: Pubkey)
        ensures
            r.is_unset(),
    {
        Pubkey { bytes: [0u8; 32] }
    }
}

/// Tells whether an identity occurs twice among the first `count` of `keys`.
pub fn has_duplicate(keys: &[Pubkey], count: usize) -> (r: bool)
    requires
        count <= keys@.len(),
    ensures
        r == !keys@.take(count as int).no_duplicates(),
{
    let ghost list = keys@.take(count as int);
    let mut i: usize = 0;
    while i < count
        invariant
            i <= count <= keys@.len(),
            list == keys@.take(count as int),
            forall|a: int, b: int| 0 <= a < i && a < b < count ==> list[a] != list[b],
        decreases count - i,
    {
        let mut j: usize = i + 1;
        while j < count
            invariant
                i < j <= count <= keys@.len(),
                list == keys@.take(count as int),
                forall|b: int| i < b < j ==> list[i as int] != list[b],
            decreases count - j,
        {
            if keys[i] == keys[j] {
                assert(list[i as int] == list[j as int]);
                return true;
            }
            j += 1;
        }
        i += 1;
    }
    assert forall|a: int, b: int| 0 <= a < list.len() && 0 <= b < list.len() && a != b implies list[a]
        != list[b] by {
        if b < a {
            assert(list[b] != list[a]);
        }
    }
    false
}

/// Where an escrow stands in its life. `Released` and `Refunded` are final.
#[derive(Clone, Copy, Debug, PartialEq, Eq, Structural)]
pub enum EscrowStatus {
    /// Created, nothing deposited yet.
    Initialized,
    /// Holds a deposit.
    Funded,
    /// A release was proposed and waits for its quorum of confirmations.
    PendingRelease,
    /// The recipients may be paid.
    Released,
    /// A party disputes the escrow; only the arbiter can move it on.
    Disputed,
    /// The deposit went back to the funder.
    Refunded,
}

impl EscrowStatus {
    /// Whether no operation can change this status any more.
    pub open spec fn is_terminal(self) -> bool {
        self == EscrowStatus::Released || self == EscrowStatus::Refunded
    }

    /// Whether an escrow of this status can have status `next` after one
    /// operation: the same, or one further on. `Initialized` leads to `Funded`;
    /// `Funded` to `PendingRelease` or `Released`; `PendingRelease` to
    /// `Released`; `Disputed` to `Released`; each status that is not final to
    /// `Disputed` and to `Refunded`. Nothing leads out of a final status.
    pub open spec fn can_become(self, next: EscrowStatus) -> bool {
        self == next || match self {
            EscrowStatus::Initialized => next == EscrowStatus::Funded || next
                == EscrowStatus::Disputed || next == EscrowStatus::Refunded,
            EscrowStatus::Funded => next == EscrowStatus::PendingRelease || next
                == EscrowStatus::Released || next == EscrowStatus::Disputed || next
                == EscrowStatus::Refunded,
            EscrowStatus::PendingRelease => next == EscrowStatus::Released || next
                == EscrowStatus::Disputed || next == EscrowStatus::Refunded,
            EscrowStatus::Disputed => next == EscrowStatus::Released || next
                == EscrowStatus::Refunded,
            EscrowStatus::Released => false,
            EscrowStatus::Refunded => false,
        }
    }

    /// The code under which this status is stored.
    pub open spec fn code_of(self) -> u8 {
        match self {
            EscrowStatus::Initialized => STATUS_INITIALIZED,
            EscrowStatus::Funded => STATUS_FUNDED,
            EscrowStatus::PendingRelease => STATUS_PENDING,
            EscrowStatus::Released => STATUS_RELEASED,
            EscrowStatus::Disputed => STATUS_DISPUTED,
            EscrowStatus::Refunded => STATUS_REFUNDED,
        }
    }

    /// Tells whether this status is final.
    pub fn is_final(self) -> (r: bool)
        ensures
            r == self.is_terminal(),
    {
        match self {
            EscrowStatus::Released | EscrowStatus::Refunded => true,
            _ => false,
        }
    }

    /// The code under which this status is stored.
    pub fn code(self) -> (r: u8)
        ensures
            r == self.code_of(),
    {
        match self {
            EscrowStatus::Initialized => STATUS_INITIALIZED,
            EscrowStatus::Funded => STATUS_FUNDED,
            EscrowStatus::PendingRelease => STATUS_PENDING,
            EscrowStatus::Released => STATUS_RELEASED,
            EscrowStatus::Disputed => STATUS_DISPUTED,
            EscrowStatus::Refunded => STATUS_REFUNDED,
        }
    }

    /// The status stored under `code`, if there is one.
    pub fn from_code(code: u8) -> (r: Option<EscrowStatus>)
        ensures
            match r {
                Some(status) => status.code_of() == code,
                None => code > STATUS_REFUNDED,
            },
    {
        if code == STATUS_INITIALIZED {
            Some(EscrowStatus::Initialized)
        } else if code == STATUS_FUNDED {
            Some(EscrowStatus::Funded)
        } else if code == STATUS_PENDING {
            Some(EscrowStatus::PendingRelease)
        } else if code == STATUS_RELEASED {
            Some(EscrowStatus::Released)
        } else if code == STATUS_DISPUTED {
            Some(EscrowStatus::Disputed)
        } else if code == STATUS_REFUNDED {
            Some(EscrowStatus::Refunded)
        } else {
            None
        }
    }
}

/// The record of one bounty's escrow.
///
/// Only the first `recipient_count` entries of `recipients` and `splits` are
/// in use. Bit `i` of `confirmations` and of `claimed` belongs to recipient
/// `i`.
#[derive(Clone, Copy, Debug, PartialEq, Eq)]
pub struct Escrow {
    /// The funder, who can release or reclaim the escrow alone.
    pub requester: Pubkey,
    /// The bounty this escrow pays for.
    pub bounty_id: [u8; 32],
    /// The asset the escrow holds; the all-zero identity is the native asset.
    pub token_mint: Pubkey,
    /// The account that holds the deposit.
    pub vault: Pubkey,
    /// The balance held.
    pub total_amount: u64,
    /// How many recipients there are.
    pub recipient_count: u8,
    /// The recipients, in their fixed order.
    pub recipients: [Pubkey; MAX_RECIPIENTS],
    /// Each recipient's weight in basis points.
    pub splits: [u16; MAX_RECIPIENTS],
    /// Which recipients have confirmed the release.
    pub confirmations: u8,
    /// Where the escrow stands.
    pub status: EscrowStatus,
    /// How many confirmations release the escrow.
    pub required_confirmations: u8,
    /// Who may resolve a dispute; the all-zero identity if nobody.
    pub arbiter: Pubkey,
    /// When the record was created.
    pub created_at: i64,
    /// From when on the funder may take the deposit back; 0 if at any time.
    pub timelock_expiry: i64,
    /// The seed byte of the record's derived authority.
    pub bump: u8,
    /// Which recipients have withdrawn their share.
    pub claimed: u8,
}

impl Escrow {
    /// The recipients in use, in order.
    pub open spec fn recipient_seq(&self) -> Seq<Pubkey> {
        self.recipients@.take(self.recipient_count as int)
    }

    /// The weights in use, one per recipient.
    pub open spec fn split_seq(&self) -> Seq<u16> {
        self.splits@.take(self.recipient_count as int)
    }

    /// Whether the recipient count fits the record's fixed capacity.
    pub open spec fn in_capacity(&self) -> bool {
        self.recipient_count as int <= MAX_RECIPIENTS as int
    }

    /// Whether `key` is the funder or one of the recipients.
    pub open spec fn is_party(&self, key: Pubkey) -> bool {
        key == self.requester || self.recipient_seq().contains(key)
    }

    /// Whether `i` is the first position at which `key` is a recipient.
    pub open spec fn is_recipient_at(&self, key: Pubkey, i: int) -> bool {
        &&& 0 <= i < self.recipient_count
        &&& self.recipients[i] == key
        &&& forall|j: int| 0 <= j < i ==> self.recipients[j] != key
    }

    /// The first position at which `key` is a recipient; meaningful only where
    /// `key` is one.
    pub open spec fn recipient_index(&self, key: Pubkey) -> int {
        choose|i: int| self.is_recipient_at(key, i)
    }

    /// A recipient has one first position.
    pub proof fn lemma_recipient_index(&self, key: Pubkey, i: int)
        requires
            self.in_capacity(),
            self.is_recipient_at(key, i),
        ensures
            self.recipient_index(key) == i,
            self.recipient_seq().contains(key),
            0 <= i < self.recipient_count,
    {
        let k = self.recipient_index(key);
        assert(self.is_recipient_at(key, k));
        if k < i {
            assert(self.recipients[k] != key);
        }
        if i < k {
            assert(self.recipients[i] != key);
        }
        assert(self.recipient_seq()[i] == key);
    }

    /// A recipient's first position is a position of that recipient.
    pub proof fn lemma_recipient_has_index(&self, key: Pubkey)
        requires
            self.in_capacity(),
            self.recipient_seq().contains(key),
        ensures
            self.is_recipient_at(key, self.recipient_index(key)),
    {
        let at = choose|k: int|
            0 <= k < self.recipient_seq().len() && self.recipient_seq()[k] == key;
        self.lemma_first_position(key, at);
    }

    /// Where `key` stands at position `at`, it has a first position.
    proof fn lemma_first_position(&self, key: Pubkey, at: int)
        requires
            self.in_capacity(),
            0 <= at < self.recipient_count,
            self.recipients[at] == key,
        ensures
            self.is_recipient_at(key, self.recipient_index(key)),
        decreases at,
    {
        if forall|j: int| 0 <= j < at ==> self.recipients[j] != key {
            assert(self.is_recipient_at(key, at));
        } else {
            let j = choose|j: int| 0 <= j < at && self.recipients[j] == key;
            self.lemma_first_position(key, j);
        }
    }

    /// What holds of every record that the operations of this library produce:
    /// between one and eight recipients, none listed twice; every weight
    /// positive and the weights summing to 10000; a threshold between one and
    /// the number of recipients; no confirmation or claim recorded for a
    /// recipient that does not exist; no confirmation before a release was
    /// proposed; a pending release still short of its quorum; and nothing held
    /// once refunded.
    pub open spec fn wf(&self) -> bool {
        &&& 1 <= self.recipient_count as int <= MAX_RECIPIENTS as int
        &&& 1 <= self.required_confirmations <= self.recipient_count
        &&& self.recipient_seq().no_duplicates()
        &&& forall|i: int| 0 <= i < self.recipient_count ==> self.splits[i] > 0
        &&& split_sum(self.split_seq()) == BASIS_POINTS_DENOM as int
        &&& within_width(self.confirmations, self.recipient_count)
        &&& within_width(self.claimed, self.recipient_count)
        &&& (self.status == EscrowStatus::Initialized || self.status == EscrowStatus::Funded)
            ==> self.confirmations == 0
        &&& self.status == EscrowStatus::PendingRelease ==> bit_count(self.confirmations)
            < self.required_confirmations
        &&& self.status == EscrowStatus::Refunded ==> self.total_amount == 0
    }

    /// Tells whether this record is one that the operations of this library
    /// can have produced.
    pub fn is_well_formed(&self) -> (r: bool)
        ensures
            r == self.wf(),
    {
        let count: usize = self.recipient_count as usize;
        if count < 1 || count > MAX_RECIPIENTS {
            return false;
        }
        if self.required_confirmations < 1 || self.required_confirmations > self.recipient_count {
            return false;
        }
        if has_duplicate(&self.recipients, count) {
            return false;
        }
        match sum_nonzero_splits(&self.splits, count) {
            None => {
                proof {
                    let at = choose|i: int|
                        0 <= i < self.split_seq().len() && self.split_seq()[i] == 0u16;
                    assert(self.splits[at] == 0);
                }
                return false;
            },
            Some(sum) => {
                proof {
                    assert forall|i: int| 0 <= i < self.recipient_count implies self.splits[i]
                        > 0 by {
                        assert(self.split_seq()[i] == self.splits[i]);
                        assert(self.split_seq().contains(self.splits[i]));
                    }
                }
                if sum != BASIS_POINTS_DENOM as u128 {
                    return false;
                }
            },
        }
        if !fits_width(self.confirmations, self.recipient_count) || !fits_width(
            self.claimed,
            self.recipient_count,
        ) {
            return false;
        }
        match self.status {
            EscrowStatus::Initialized | EscrowStatus::Funded => self.confirmations == 0,
            EscrowStatus::PendingRelease => count_bits(self.confirmations)
                < self.required_confirmations,
            EscrowStatus::Refunded => self.total_amount == 0,
            EscrowStatus::Released | EscrowStatus::Disputed => true,
        }
    }

    /// Looks `key` up among the recipients and gives its first position.
    pub fn find_recipient(&self, key: &Pubkey) -> (r: Option<usize>)
        requires
            self.in_capacity(),
        ensures
            match r {
                Some(i) => self.is_recipient_at(*key, i as int),
                None => !self.recipient_seq().contains(*key),
            },
    {
        let count: usize = self.recipient_count as usize;
        let mut i: usize = 0;
        while i < count
            invariant
                i <= count <= MAX_RECIPIENTS,
                count == self.recipient_count,
                forall|j: int| 0 <= j < i ==> self.recipients[j] != *key,
            decreases count - i,
        {
            if self.recipients[i] == *key {
                return Some(i);
            }
            i += 1;
        }
        None
    }

    /// Tells whether `key` is the funder or one of the recipients.
    pub fn is_authorized_party(&self, key: &Pubkey) -> (r: bool)
        requires
            self.in_capacity(),
        ensures
            r == self.is_party(*key),
    {
        if *key == self.requester {
            return true;
        }
        match self.find_recipient(key) {
            Some(i) => {
                assert(self.recipient_seq()[i as int] == *key);
                true
            },
            None => false,
        }
    }
}

} // verus!
