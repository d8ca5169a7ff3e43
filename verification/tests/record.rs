use bounty_split::instructions::fund_escrow::fund_escrow;
use bounty_split::instructions::initialize_escrow::{initialize_escrow, InitializeParams};
use bounty_split::state::{
    has_duplicate, Escrow, EscrowStatus, Pubkey, BASIS_POINTS_DENOM, MAX_RECIPIENTS,
    STATUS_DISPUTED, STATUS_FUNDED, STATUS_INITIALIZED, STATUS_PENDING, STATUS_REFUNDED,
    STATUS_RELEASED,
};

fn id(n: u8) -> Pubkey {
    Pubkey { bytes: [n; 32] }
}

fn sample() -> Escrow {
    let params = InitializeParams {
        bounty_id: [1; 32],
        token_mint: id(2),
        recipients: vec![id(10), id(11)],
        splits: vec![7000, 3000],
        required_confirmations: 2,
        arbiter: Pubkey::default(),
        timelock_expiry: 0,
    };
    initialize_escrow(id(3), id(4), id(5), 1, 0, &params).unwrap().0
}

#[test]
fn the_limits_are_eight_recipients_and_ten_thousand_points() {
    assert_eq!(MAX_RECIPIENTS, 8);
    assert_eq!(BASIS_POINTS_DENOM, 10_000);
}

#[test]
fn identities_compare_by_their_bytes() {
    assert_eq!(id(1), id(1));
    assert_ne!(id(1), id(2));
    let mut almost = id(1);
    almost.bytes[31] = 2;
    assert_ne!(id(1), almost);
    almost.bytes[31] = 1;
    assert_eq!(id(1), almost);
}

#[test]
fn the_default_identity_is_all_zero() {
    assert_eq!(Pubkey::default().bytes, [0; 32]);
    assert!(Pubkey::default().is_default());
    assert!(!id(1).is_default());
    let mut last = Pubkey::default();
    last.bytes[31] = 1;
    assert!(!last.is_default());
}

#[test]
fn each_status_has_its_stored_code() {
    let all = [
        (EscrowStatus::Initialized, STATUS_INITIALIZED, 0),
        (EscrowStatus::Funded, STATUS_FUNDED, 1),
        (EscrowStatus::PendingRelease, STATUS_PENDING, 2),
        (EscrowStatus::Released, STATUS_RELEASED, 3),
        (EscrowStatus::Disputed, STATUS_DISPUTED, 4),
        (EscrowStatus::Refunded, STATUS_REFUNDED, 5),
    ];
    for (status, code, number) in all {
        assert_eq!(code, number);
        assert_eq!(status.code(), code);
        assert_eq!(EscrowStatus::from_code(code), Some(status));
    }
    for code in 6..=255u8 {
        assert_eq!(EscrowStatus::from_code(code), None);
    }
}

#[test]
fn released_and_refunded_are_final() {
    assert!(EscrowStatus::Released.is_final());
    assert!(EscrowStatus::Refunded.is_final());
    assert!(!EscrowStatus::Initialized.is_final());
    assert!(!EscrowStatus::Funded.is_final());
    assert!(!EscrowStatus::PendingRelease.is_final());
    assert!(!EscrowStatus::Disputed.is_final());
}

#[test]
fn has_duplicate_looks_at_the_first_count_only() {
    let keys = [id(1), id(2), id(3), id(1)];
    assert!(has_duplicate(&keys, 4));
    assert!(!has_duplicate(&keys, 3));
    assert!(!has_duplicate(&keys, 1));
    assert!(!has_duplicate(&keys, 0));
    assert!(has_duplicate(&[id(5), id(5)], 2));
}

#[test]
fn recipients_are_found_at_their_position() {
    let escrow = sample();
    assert_eq!(escrow.find_recipient(&id(10)), Some(0));
    assert_eq!(escrow.find_recipient(&id(11)), Some(1));
    assert_eq!(escrow.find_recipient(&id(4)), None);
    // Unused slots hold the all-zero identity, which is no recipient.
    assert_eq!(escrow.find_recipient(&Pubkey::default()), None);
}

#[test]
fn the_funder_and_the_recipients_are_parties() {
    let escrow = sample();
    assert!(escrow.is_authorized_party(&id(4)));
    assert!(escrow.is_authorized_party(&id(10)));
    assert!(escrow.is_authorized_party(&id(11)));
    assert!(!escrow.is_authorized_party(&id(3)));
    assert!(!escrow.is_authorized_party(&Pubkey::default()));
}

#[test]
fn a_record_is_checked_for_every_rule() {
    let good = sample();
    assert!(good.is_well_formed());

    let mut e = good;
    e.recipient_count = 0;
    assert!(!e.is_well_formed());
    let mut e = good;
    e.recipient_count = 9;
    assert!(!e.is_well_formed());
    let mut e = good;
    e.required_confirmations = 0;
    assert!(!e.is_well_formed());
    let mut e = good;
    e.required_confirmations = 3;
    assert!(!e.is_well_formed());
    let mut e = good;
    e.recipients[1] = e.recipients[0];
    assert!(!e.is_well_formed());
    let mut e = good;
    e.splits = [10_000, 0, 0, 0, 0, 0, 0, 0];
    assert!(!e.is_well_formed());
    let mut e = good;
    e.splits[1] = 2999;
    assert!(!e.is_well_formed());
    let mut e = good;
    e.status = EscrowStatus::Released;
    e.confirmations = 0b100;
    assert!(!e.is_well_formed());
    let mut e = good;
    e.status = EscrowStatus::Released;
    e.claimed = 0b100;
    assert!(!e.is_well_formed());
    let mut e = good;
    e.confirmations = 0b01;
    assert!(!e.is_well_formed());
    let mut e = good;
    e.status = EscrowStatus::PendingRelease;
    e.confirmations = 0b11;
    assert!(!e.is_well_formed());
    e.confirmations = 0b01;
    assert!(e.is_well_formed());
    let mut e = good;
    e.status = EscrowStatus::Refunded;
    e.total_amount = 1;
    assert!(!e.is_well_formed());
    e.total_amount = 0;
    assert!(e.is_well_formed());
}

#[test]
fn a_full_record_is_well_formed() {
    let params = InitializeParams {
        bounty_id: [0; 32],
        token_mint: id(2),
        recipients: (30..38).map(id).collect(),
        splits: vec![1, 2, 3, 4, 5, 6, 7, 9972],
        required_confirmations: 8,
        arbiter: id(9),
        timelock_expiry: 0,
    };
    let mut escrow = initialize_escrow(id(3), id(4), id(5), 1, 0, &params).unwrap().0;
    fund_escrow(&mut escrow, id(3), 1).unwrap();
    escrow.status = EscrowStatus::Released;
    escrow.confirmations = 0xff;
    escrow.claimed = 0xff;
    assert!(escrow.is_well_formed());
}
