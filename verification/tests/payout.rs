use anchor_lang::solana_program::program_option::COption;
use anchor_lang::solana_program::program_pack::Pack;
use anchor_spl::token::spl_token::state::{Account, AccountState};
use bounty_split::errors::EscrowError;
use bounty_split::instructions::claim::claim;
use bounty_split::events::EscrowReleased;
use bounty_split::instructions::common::{distribute_spl, Distribution, Payout};
use bounty_split::instructions::fund_escrow::fund_escrow;
use bounty_split::instructions::initialize_escrow::{initialize_escrow, InitializeParams};
use bounty_split::instructions::release::release;
use bounty_split::state::{Escrow, EscrowStatus, Pubkey};

fn who(n: u8) -> Pubkey {
    Pubkey { bytes: [n; 32] }
}

fn outside(key: Pubkey) -> anchor_lang::solana_program::pubkey::Pubkey {
    anchor_lang::solana_program::pubkey::Pubkey::new_from_array(key.bytes)
}

const MINT: u8 = 4;
const FUNDER: u8 = 1;

fn token_account(mint: Pubkey, owner: Pubkey) -> Account {
    Account {
        mint: outside(mint),
        owner: outside(owner),
        amount: 12,
        delegate: COption::None,
        state: AccountState::Initialized,
        is_native: COption::None,
        delegated_amount: 0,
        close_authority: COption::None,
    }
}

fn stored(account: Account) -> Vec<u8> {
    let mut data = vec![0u8; Account::LEN];
    Account::pack(account, &mut data).unwrap();
    data
}

fn account_of(owner: u8) -> Vec<u8> {
    stored(token_account(who(MINT), who(owner)))
}

fn released_with(splits: Vec<u16>, total: u64) -> Escrow {
    let params = InitializeParams {
        bounty_id: [7; 32],
        token_mint: who(MINT),
        recipients: (0..splits.len() as u8).map(|i| who(10 + i)).collect(),
        splits,
        required_confirmations: 1,
        arbiter: Pubkey::default(),
        timelock_expiry: 0,
    };
    let mut escrow = initialize_escrow(who(2), who(FUNDER), who(3), 255, 0, &params).unwrap().0;
    if total > 0 {
        fund_escrow(&mut escrow, who(2), total).unwrap();
        release(&mut escrow, who(2), who(FUNDER)).unwrap();
    } else {
        escrow.status = EscrowStatus::Released;
    }
    escrow
}

fn destinations(owners: &[u8]) -> Vec<Vec<u8>> {
    owners.iter().map(|o| account_of(*o)).collect()
}

fn pay(destination: usize, amount: u64) -> Payout {
    Payout { destination, amount }
}

fn paid_out(amount: u64) -> EscrowReleased {
    EscrowReleased { escrow: who(2), total_distributed: amount }
}

fn distribute(
    escrow: &mut Escrow,
    accounts: &Vec<Vec<u8>>,
) -> Result<(Vec<Payout>, u64), EscrowError> {
    let plan = distribute_spl(escrow, who(2), accounts)?;
    let to_recipients: Vec<u64> = plan
        .payouts
        .iter()
        .filter(|p| p.destination < escrow.recipient_count as usize)
        .map(|p| p.amount)
        .collect();
    let reported: Vec<u64> = plan.events.iter().map(|e| e.total_distributed).collect();
    assert_eq!(reported, to_recipients);
    assert!(plan.events.iter().all(|e| e.escrow == who(2)));
    Ok((plan.payouts, plan.distributed))
}

#[test]
fn a_round_total_is_paid_out_in_full() {
    let mut escrow = released_with(vec![5000, 3000, 2000], 1000);
    let before = escrow;
    let (payouts, distributed) =
        distribute(&mut escrow, &destinations(&[10, 11, 12, FUNDER])).unwrap();
    assert_eq!(payouts, vec![pay(0, 500), pay(1, 300), pay(2, 200)]);
    assert_eq!(distributed, 1000);
    assert_eq!(escrow, Escrow { total_amount: 0, ..before });
    assert!(escrow.is_well_formed());
}

#[test]
fn a_distribution_reports_each_recipient_paid() {
    let mut escrow = released_with(vec![9998, 1, 1], 20_000);
    let plan = distribute_spl(&mut escrow, who(2), &destinations(&[10, 11, 12, FUNDER])).unwrap();
    assert_eq!(
        plan,
        Distribution {
            payouts: vec![pay(0, 19_996), pay(1, 2), pay(2, 2)],
            events: vec![paid_out(19_996), paid_out(2), paid_out(2)],
            distributed: 20_000,
        }
    );
    let mut escrow = released_with(vec![9998, 1, 1], 9999);
    let plan = distribute_spl(&mut escrow, who(2), &destinations(&[10, 11, 12, FUNDER])).unwrap();
    assert_eq!(
        plan,
        Distribution {
            payouts: vec![pay(0, 9997), pay(3, 2)],
            events: vec![paid_out(9997)],
            distributed: 9997,
        }
    );
}

#[test]
fn the_dust_goes_back_to_the_funder() {
    let mut escrow = released_with(vec![3334, 3333, 3333], 10);
    let (payouts, distributed) =
        distribute(&mut escrow, &destinations(&[10, 11, 12, FUNDER])).unwrap();
    assert_eq!(payouts, vec![pay(0, 3), pay(1, 3), pay(2, 3), pay(3, 1)]);
    assert_eq!(distributed, 9);
    assert_eq!(escrow.total_amount, 0);
}

#[test]
fn the_payouts_move_exactly_the_balance() {
    let tables: [Vec<u16>; 3] = [
        vec![10_000],
        vec![1, 9999],
        vec![1429, 1429, 1429, 1429, 1428, 1428, 1428],
    ];
    for splits in tables {
        for total in [1u64, 6, 7, 9999, 10_001, u64::MAX] {
            let owners: Vec<u8> =
                (0..splits.len() as u8).map(|i| 10 + i).chain([FUNDER]).collect();
            let mut escrow = released_with(splits.clone(), total);
            let (payouts, distributed) =
                distribute(&mut escrow, &destinations(&owners)).unwrap();
            let moved: u128 = payouts.iter().map(|p| p.amount as u128).sum();
            assert_eq!(moved, total as u128);
            assert!(payouts.iter().all(|p| p.amount > 0));
            assert!(distributed <= total);
            assert!(total - distributed < splits.len() as u64);
            assert_eq!(escrow.total_amount, 0);
        }
    }
}

#[test]
fn a_recipient_with_a_zero_share_is_skipped_unseen() {
    let mut escrow = released_with(vec![9998, 1, 1], 9999);
    let mut accounts = destinations(&[10, 11, 12, FUNDER]);
    accounts[1] = vec![1, 2, 3];
    accounts[2] = Vec::new();
    let (payouts, distributed) = distribute(&mut escrow, &accounts).unwrap();
    assert_eq!(payouts, vec![pay(0, 9997), pay(3, 2)]);
    assert_eq!(distributed, 9997);
}

#[test]
fn without_dust_the_funder_account_is_not_looked_at() {
    let mut escrow = released_with(vec![5000, 5000], 10);
    let mut accounts = destinations(&[10, 11, FUNDER]);
    accounts[2] = vec![0; 7];
    let (payouts, _) = distribute(&mut escrow, &accounts).unwrap();
    assert_eq!(payouts, vec![pay(0, 5), pay(1, 5)]);
}

#[test]
fn an_empty_balance_pays_nobody() {
    let mut escrow = released_with(vec![5000, 5000], 0);
    let accounts = vec![Vec::new(), Vec::new(), Vec::new()];
    let (payouts, distributed) = distribute(&mut escrow, &accounts).unwrap();
    assert_eq!(payouts, Vec::<Payout>::new());
    assert_eq!(distributed, 0);
}

#[test]
fn accounts_beyond_those_needed_are_ignored() {
    let mut escrow = released_with(vec![5000, 5000], 11);
    let mut accounts = destinations(&[10, 11, FUNDER]);
    accounts.push(vec![9; 3]);
    let (payouts, _) = distribute(&mut escrow, &accounts).unwrap();
    assert_eq!(payouts, vec![pay(0, 5), pay(1, 5), pay(2, 1)]);
}

#[test]
fn only_a_released_escrow_is_distributed() {
    for status in [
        EscrowStatus::Initialized,
        EscrowStatus::Funded,
        EscrowStatus::PendingRelease,
        EscrowStatus::Disputed,
        EscrowStatus::Refunded,
    ] {
        let mut escrow = released_with(vec![5000, 5000], 10);
        escrow.status = status;
        let before = escrow;
        assert_eq!(
            distribute(&mut escrow, &destinations(&[10, 11, FUNDER])),
            Err(EscrowError::InvalidStatus)
        );
        assert_eq!(escrow, before);
    }
}

#[test]
fn a_record_without_recipients_is_not_distributed() {
    let mut escrow = released_with(vec![5000, 5000], 10);
    escrow.recipient_count = 0;
    let before = escrow;
    assert_eq!(
        distribute(&mut escrow, &destinations(&[10, 11, FUNDER])),
        Err(EscrowError::InvalidRecipientCount)
    );
    assert_eq!(escrow, before);
}

#[test]
fn too_few_accounts_are_refused() {
    let mut escrow = released_with(vec![5000, 5000], 10);
    let before = escrow;
    assert_eq!(
        distribute(&mut escrow, &destinations(&[10, 11])),
        Err(EscrowError::RecipientNotFound)
    );
    assert_eq!(distribute(&mut escrow, &Vec::new()), Err(EscrowError::RecipientNotFound));
    assert_eq!(escrow, before);
}

#[test]
fn shares_above_the_balance_stop_the_distribution() {
    let mut escrow = released_with(vec![5000, 5000], 10);
    escrow.splits[1] = 6000;
    let before = escrow;
    assert_eq!(
        distribute(&mut escrow, &destinations(&[10, 11, FUNDER])),
        Err(EscrowError::Overflow)
    );
    assert_eq!(escrow, before);
}

#[test]
fn data_that_is_no_token_account_is_refused() {
    let good = account_of(11);
    let mut short = good.clone();
    short.pop();
    let mut long = good.clone();
    long.push(0);
    let mut uninitialized = good.clone();
    uninitialized[108] = 0;
    let mut unknown_state = good.clone();
    unknown_state[108] = 3;
    let mut bad_delegate_tag = good.clone();
    bad_delegate_tag[72] = 2;
    let mut bad_delegate_tag_high = good.clone();
    bad_delegate_tag_high[75] = 1;
    let mut bad_native_tag = good.clone();
    bad_native_tag[110] = 1;
    let mut bad_close_tag = good.clone();
    bad_close_tag[129] = 7;
    for data in [
        Vec::new(),
        short,
        long,
        uninitialized,
        unknown_state,
        bad_delegate_tag,
        bad_delegate_tag_high,
        bad_native_tag,
        bad_close_tag,
    ] {
        let mut escrow = released_with(vec![5000, 5000], 10);
        let before = escrow;
        let mut accounts = destinations(&[10, 11, FUNDER]);
        accounts[1] = data;
        assert_eq!(
            distribute(&mut escrow, &accounts),
            Err(EscrowError::InvalidAccountData)
        );
        assert_eq!(escrow, before);
    }
}

#[test]
fn every_valid_form_of_a_token_account_is_accepted() {
    let mut frozen = token_account(who(MINT), who(11));
    frozen.state = AccountState::Frozen;
    let mut delegated = token_account(who(MINT), who(11));
    delegated.delegate = COption::Some(outside(who(50)));
    delegated.delegated_amount = 3;
    let mut native = token_account(who(MINT), who(11));
    native.is_native = COption::Some(2_039_280);
    let mut closable = token_account(who(MINT), who(11));
    closable.close_authority = COption::Some(outside(who(51)));
    closable.amount = u64::MAX;
    for account in [frozen, delegated, native, closable] {
        let mut escrow = released_with(vec![5000, 5000], 10);
        let mut accounts = destinations(&[10, 11, FUNDER]);
        accounts[1] = stored(account);
        let (payouts, _) = distribute(&mut escrow, &accounts).unwrap();
        assert_eq!(payouts, vec![pay(0, 5), pay(1, 5)]);
    }
}

#[test]
fn the_mint_and_the_owner_are_read_from_their_places() {
    // Bytes 0..32 hold the mint and bytes 32..64 the owner.
    let mut data = vec![0u8; 165];
    data[..32].copy_from_slice(&who(MINT).bytes);
    data[32..64].copy_from_slice(&who(10).bytes);
    data[108] = 1;
    let mut escrow = released_with(vec![10_000], 8);
    let (payouts, _) = distribute(&mut escrow, &vec![data.clone(), Vec::new()]).unwrap();
    assert_eq!(payouts, vec![pay(0, 8)]);

    let mut swapped = data.clone();
    swapped[..32].copy_from_slice(&who(10).bytes);
    swapped[32..64].copy_from_slice(&who(MINT).bytes);
    let mut escrow = released_with(vec![10_000], 8);
    assert_eq!(
        distribute(&mut escrow, &vec![swapped, Vec::new()]),
        Err(EscrowError::InvalidMint)
    );

    let mut last_owner_byte = data.clone();
    last_owner_byte[63] ^= 1;
    let mut escrow = released_with(vec![10_000], 8);
    assert_eq!(
        distribute(&mut escrow, &vec![last_owner_byte, Vec::new()]),
        Err(EscrowError::RecipientNotFound)
    );

    let mut last_mint_byte = data;
    last_mint_byte[31] ^= 1;
    let mut escrow = released_with(vec![10_000], 8);
    assert_eq!(
        distribute(&mut escrow, &vec![last_mint_byte, Vec::new()]),
        Err(EscrowError::InvalidMint)
    );
}

#[test]
fn an_account_of_another_asset_is_refused() {
    let mut escrow = released_with(vec![5000, 5000], 10);
    let before = escrow;
    let mut accounts = destinations(&[10, 11, FUNDER]);
    accounts[0] = stored(token_account(who(5), who(10)));
    assert_eq!(distribute(&mut escrow, &accounts), Err(EscrowError::InvalidMint));
    assert_eq!(escrow, before);
}

#[test]
fn an_account_of_another_owner_is_refused() {
    let mut escrow = released_with(vec![5000, 5000], 10);
    let before = escrow;
    assert_eq!(
        distribute(&mut escrow, &destinations(&[10, 10, FUNDER])),
        Err(EscrowError::RecipientNotFound)
    );
    assert_eq!(
        distribute(&mut escrow, &destinations(&[11, 10, FUNDER])),
        Err(EscrowError::RecipientNotFound)
    );
    assert_eq!(escrow, before);
}

#[test]
fn the_mint_is_checked_before_the_owner() {
    let mut escrow = released_with(vec![5000, 5000], 10);
    let mut accounts = destinations(&[10, 11, FUNDER]);
    accounts[0] = stored(token_account(who(5), who(77)));
    assert_eq!(distribute(&mut escrow, &accounts), Err(EscrowError::InvalidMint));
}

#[test]
fn the_first_unfit_recipient_account_decides() {
    let mut escrow = released_with(vec![5000, 3000, 2000], 1000);
    let mut accounts = destinations(&[10, 77, 12, FUNDER]);
    accounts[2] = vec![0; 4];
    assert_eq!(distribute(&mut escrow, &accounts), Err(EscrowError::RecipientNotFound));
    accounts[0] = stored(token_account(who(5), who(10)));
    assert_eq!(distribute(&mut escrow, &accounts), Err(EscrowError::InvalidMint));
    // A recipient's account comes before the funder's.
    let mut escrow = released_with(vec![3334, 3333, 3333], 10);
    let mut accounts = destinations(&[10, 11, 12, 77]);
    accounts[2] = vec![0; 4];
    assert_eq!(distribute(&mut escrow, &accounts), Err(EscrowError::InvalidAccountData));
}

#[test]
fn the_dust_goes_only_to_an_account_of_the_funder() {
    let mut escrow = released_with(vec![3334, 3333, 3333], 10);
    let before = escrow;
    assert_eq!(
        distribute(&mut escrow, &destinations(&[10, 11, 12, 10])),
        Err(EscrowError::Unauthorized)
    );
    let mut accounts = destinations(&[10, 11, 12, FUNDER]);
    accounts[3] = stored(token_account(who(5), who(FUNDER)));
    assert_eq!(distribute(&mut escrow, &accounts), Err(EscrowError::InvalidMint));
    // The owner is checked before the mint.
    accounts[3] = stored(token_account(who(5), who(10)));
    assert_eq!(distribute(&mut escrow, &accounts), Err(EscrowError::Unauthorized));
    accounts[3] = vec![0; 165];
    assert_eq!(distribute(&mut escrow, &accounts), Err(EscrowError::InvalidAccountData));
    assert_eq!(escrow, before);
}

#[test]
fn after_a_distribution_nothing_is_left_to_claim() {
    let mut escrow = released_with(vec![5000, 5000], 10);
    distribute(&mut escrow, &destinations(&[10, 11, FUNDER])).unwrap();
    let before = escrow;
    assert_eq!(claim(&mut escrow, who(2), who(10)), Err(EscrowError::InvalidSplits));
    assert_eq!(escrow, before);
}

#[test]
fn a_second_distribution_moves_nothing() {
    let mut escrow = released_with(vec![5000, 5000], 10);
    distribute(&mut escrow, &destinations(&[10, 11, FUNDER])).unwrap();
    let (payouts, distributed) =
        distribute(&mut escrow, &destinations(&[10, 11, FUNDER])).unwrap();
    assert_eq!(payouts, Vec::<Payout>::new());
    assert_eq!(distributed, 0);
}
