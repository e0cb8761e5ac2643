use street_craps::solana_word_game::{
    claim, close_round, contribute, find_contributor_slot, find_or_create_contributor_slot, initialize,
    owner_withdraw, reset_round, ProgramError,
};
use street_craps::types::{ContributorRecord, RoundState, WordGameAccount, MAX_CONTRIBUTORS};

fn key(seed: u8) -> [u8; 32] {
    [seed; 32]
}

#[test]
fn happy_path_claim_and_owner_withdraw_and_reset() {
    let mut account = initialize(key(1), 1_000).expect("init must succeed");

    contribute(&mut account, key(9), 1_000).expect("contribute1 must succeed");
    contribute(&mut account, key(7), 3_000).expect("contribute2 must succeed");

    close_round(&mut account).expect("close must succeed");

    let claim_1 = claim(&mut account, key(9)).expect("claim1 must succeed");
    let claim_2 = claim(&mut account, key(7)).expect("claim2 must succeed");
    let owner_take = owner_withdraw(&mut account).expect("owner withdraw must succeed");

    assert_eq!(claim_1, 900);
    assert_eq!(claim_2, 2_700);
    assert_eq!(owner_take, 400);
    assert_eq!(account.current_round.total_round_claimed, 3_600);

    reset_round(&mut account).expect("reset must succeed");

    assert_eq!(account.current_round.round_id, 2);
    assert!(!account.current_round.is_closed);
    assert_eq!(account.current_round.total_round_contributions, 0);

    let idx = find_contributor_slot(&account.contributors, key(9)).expect("must retain contributor");
    assert_eq!(account.contributors[idx].total_contributed_lamports, 0);
    assert!(!account.contributors[idx].has_claimed_current_round);
}

#[test]
fn blocks_double_claim() {
    let mut account = initialize(key(1), 500).expect("init must succeed");
    contribute(&mut account, key(2), 1_000).expect("contribute must succeed");
    close_round(&mut account).expect("close must succeed");

    let first = claim(&mut account, key(2)).expect("first claim must succeed");
    assert_eq!(first, 950);

    let second = claim(&mut account, key(2));
    assert_eq!(second, Err(ProgramError::DoubleClaim));
}

#[test]
fn blocks_double_owner_withdraw() {
    let mut account = initialize(key(1), 1_000).expect("init must succeed");
    contribute(&mut account, key(4), 2_000).expect("contribute must succeed");
    close_round(&mut account).expect("close must succeed");

    let first = owner_withdraw(&mut account).expect("first withdraw must succeed");
    assert_eq!(first, 200);

    let second = owner_withdraw(&mut account);
    assert_eq!(second, Err(ProgramError::DoubleWithdraw));
}

#[test]
fn errors_when_claim_before_close() {
    let mut account = initialize(key(1), 0).expect("init must succeed");
    contribute(&mut account, key(10), 100).expect("contribute must succeed");
    let claim_result = claim(&mut account, key(10));
    assert_eq!(claim_result, Err(ProgramError::RoundStillOpen));
}

#[test]
fn initialize_rejects_cut_above_whole() {
    assert_eq!(initialize(key(1), 10_001), Err(ProgramError::InvalidTreasuryBps));
    let account = initialize(key(1), 10_000).expect("a cut of the whole is allowed");
    assert_eq!(account.contributors.len(), MAX_CONTRIBUTORS);
    assert_eq!(account.current_round, RoundState::new(1));
    assert_eq!(account.contributors[0], ContributorRecord::empty());
    assert_eq!(account, WordGameAccount::new(key(1), 10_000));
}

#[test]
fn contribute_rejects_zero_and_closed_round() {
    let mut account = initialize(key(1), 100).unwrap();
    assert_eq!(contribute(&mut account, key(2), 0), Err(ProgramError::InvalidAmount));
    contribute(&mut account, key(2), 10).unwrap();
    close_round(&mut account).unwrap();
    assert_eq!(contribute(&mut account, key(2), 10), Err(ProgramError::RoundAlreadyClosed));
    assert_eq!(close_round(&mut account), Err(ProgramError::RoundAlreadyClosed));
}

#[test]
fn repeated_contributions_accumulate_in_one_slot() {
    let mut account = initialize(key(1), 0).unwrap();
    contribute(&mut account, key(3), 5).unwrap();
    contribute(&mut account, key(3), 7).unwrap();
    let idx = find_contributor_slot(&account.contributors, key(3)).unwrap();
    assert_eq!(idx, 0);
    assert_eq!(account.contributors[0].total_contributed_lamports, 12);
    assert!(!account.contributors[1].is_initialized);
    assert_eq!(account.current_round.total_round_contributions, 12);
}

#[test]
fn contribute_overflow_leaves_account_unchanged() {
    let mut account = initialize(key(1), 0).unwrap();
    contribute(&mut account, key(3), u64::MAX).unwrap();
    let before = account.clone();
    assert_eq!(contribute(&mut account, key(4), 1), Err(ProgramError::MathOverflow));
    assert_eq!(account, before);
}

#[test]
fn table_full_rejects_new_contributor() {
    let mut account = initialize(key(1), 0).unwrap();
    for i in 0..MAX_CONTRIBUTORS {
        contribute(&mut account, key(i as u8 + 10), 1).unwrap();
    }
    assert_eq!(contribute(&mut account, key(200), 1), Err(ProgramError::ContributorTableFull));
    contribute(&mut account, key(10), 1).expect("an existing contributor may add more");
}

#[test]
fn find_or_create_takes_first_free_slot() {
    let mut table = vec![ContributorRecord::empty(); 3];
    table[0].is_initialized = true;
    table[0].contributor = key(5);
    assert_eq!(find_or_create_contributor_slot(&mut table, key(5)), Ok(0));
    assert_eq!(find_or_create_contributor_slot(&mut table, key(6)), Ok(1));
    assert!(table[1].is_initialized);
    assert_eq!(table[1].contributor, key(6));
    assert_eq!(find_contributor_slot(&table, key(6)), Some(1));
    assert_eq!(find_contributor_slot(&table, key(7)), None);
}

#[test]
fn claim_errors_for_unknown_and_empty_share() {
    let mut account = initialize(key(1), 10_000).unwrap();
    contribute(&mut account, key(2), 50).unwrap();
    close_round(&mut account).unwrap();
    assert_eq!(claim(&mut account, key(9)), Err(ProgramError::ContributorNotFound));
    assert_eq!(claim(&mut account, key(2)), Err(ProgramError::InvalidAmount));
    assert_eq!(owner_withdraw(&mut account), Ok(50));
}

#[test]
fn close_round_rounds_shares_down() {
    let mut account = initialize(key(1), 333).unwrap();
    contribute(&mut account, key(2), 1_001).unwrap();
    close_round(&mut account).unwrap();
    assert_eq!(account.current_round.owner_withdrawable_lamports, 33);
    assert_eq!(account.current_round.total_round_claimable, 968);
    assert_eq!(account.contributors[0].claimable_lamports, 967);
}

#[test]
fn reset_requires_closed_round() {
    let mut account = initialize(key(1), 0).unwrap();
    assert_eq!(reset_round(&mut account), Err(ProgramError::RoundStillOpen));
    assert_eq!(owner_withdraw(&mut account), Err(ProgramError::RoundStillOpen));
}
