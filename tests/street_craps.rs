use street_craps::game::{Config, CrapsError, Game, GameState};
use street_craps::street_craps::{
    cancel_game, claim_payout, close_game, consume_randomness_callback, create_game, forfeit_unrolled,
    initialize_config, join_game, request_roll, resolve_roll, roll_dice, set_config_frozen, update_config,
    withdraw_cancelled, RollOutcome,
};

fn key(seed: u8) -> [u8; 32] {
    [seed; 32]
}

const AUTHORITY: u8 = 1;
const PROGRAM: u8 = 2;
const ORACLE: u8 = 3;
const TREASURY: u8 = 4;
const CONFIG_KEY: u8 = 5;
const SHOOTER: u8 = 10;

/// Entropy words whose dice sum to 2, 6, 7 and 11.
const ROLL_2: u64 = 0;
const ROLL_6: u64 = 4;
const ROLL_7: u64 = 5;
const ROLL_11: u64 = 29;

fn config(tax_bps: u16, max_faders: u8) -> Config {
    initialize_config(key(AUTHORITY), key(PROGRAM), key(ORACLE), key(TREASURY), tax_bps, 100, 100, max_faders)
        .expect("valid config")
}

fn new_game(cfg: &Config, stake: u64) -> Game {
    create_game(cfg, key(CONFIG_KEY), 1, key(SHOOTER), stake, 10).expect("game opens")
}

fn roll(game: &mut Game, cfg: &Config, request: u8, word: u64, slot: u64) -> Result<(), CrapsError> {
    request_roll(game, cfg, key(SHOOTER), key(request), slot)?;
    consume_randomness_callback(game, cfg, key(PROGRAM), true, key(ORACLE), true, key(request), word, slot + 1)
}

fn payouts(game: &Game) -> Vec<u64> {
    game.faders.iter().map(|f| f.payout).collect()
}

fn conserved(game: &Game) -> bool {
    let faders: u64 = game.faders.iter().map(|f| f.payout).sum();
    faders + game.shooter_payout + game.tax_amount == game.total_pot
}

#[test]
fn scenario_pass_shooter_wins_first_roll() {
    let cfg = config(250, 4);
    let mut game = new_game(&cfg, 1000);
    join_game(&mut game, &cfg, key(20), 300, 11).unwrap();
    join_game(&mut game, &cfg, key(21), 700, 12).unwrap();
    assert_eq!(game.total_fader_stake, 1000);
    assert_eq!(game.total_pot, 2000);
    roll(&mut game, &cfg, 50, ROLL_7, 13).unwrap();
    assert_eq!(game.state, GameState::Settled);
    assert!(game.winner_is_shooter);
    assert_eq!(game.tax_amount, 50);
    assert_eq!(game.shooter_payout, 1950);
    assert_eq!(payouts(&game), vec![0, 0]);
    assert!(conserved(&game));
}

#[test]
fn scenario_fail_proportional_split() {
    let cfg = config(250, 4);
    let mut game = new_game(&cfg, 1000);
    join_game(&mut game, &cfg, key(20), 300, 11).unwrap();
    join_game(&mut game, &cfg, key(21), 700, 12).unwrap();
    roll(&mut game, &cfg, 50, ROLL_6, 13).unwrap();
    assert_eq!(game.state, GameState::PointEstablished);
    assert_eq!(game.point, 6);
    assert_eq!(game.pending_roll_request, [0u8; 32]);
    roll(&mut game, &cfg, 51, ROLL_11, 15).unwrap();
    assert_eq!(game.state, GameState::PointEstablished);
    assert_eq!(game.point, 6);
    roll(&mut game, &cfg, 52, ROLL_7, 17).unwrap();
    assert_eq!(game.state, GameState::Settled);
    assert!(!game.winner_is_shooter);
    assert_eq!(game.tax_amount, 50);
    assert_eq!(game.shooter_payout, 0);
    assert_eq!(payouts(&game), vec![585, 1365]);
    assert!(conserved(&game));
}

#[test]
fn scenario_remainder_goes_to_first_fader() {
    let cfg = config(0, 4);
    let mut game = new_game(&cfg, 97);
    join_game(&mut game, &cfg, key(20), 1, 11).unwrap();
    join_game(&mut game, &cfg, key(21), 1, 11).unwrap();
    join_game(&mut game, &cfg, key(22), 1, 11).unwrap();
    assert_eq!(game.total_fader_stake, 3);
    assert_eq!(game.total_pot, 100);
    roll(&mut game, &cfg, 50, ROLL_2, 12).unwrap();
    assert_eq!(game.state, GameState::Settled);
    assert_eq!(game.tax_amount, 0);
    assert_eq!(payouts(&game), vec![34, 33, 33]);
    assert!(conserved(&game));
}

#[test]
fn scenario_forfeit_after_roll_window() {
    let cfg = config(250, 4);
    let mut game = new_game(&cfg, 1000);
    join_game(&mut game, &cfg, key(20), 300, 11).unwrap();
    join_game(&mut game, &cfg, key(21), 700, 12).unwrap();
    assert_eq!(forfeit_unrolled(&mut game, &cfg, key(20), 112), Err(CrapsError::RollWindowActive));
    assert_eq!(forfeit_unrolled(&mut game, &cfg, key(99), 113), Err(CrapsError::Unauthorized));
    forfeit_unrolled(&mut game, &cfg, key(20), 113).unwrap();
    assert_eq!(game.state, GameState::Settled);
    assert!(!game.winner_is_shooter);
    assert_eq!(game.last_action_slot, 113);
    assert_eq!(payouts(&game), vec![585, 1365]);
    assert_eq!(game.shooter_payout, 0);
    assert!(conserved(&game));
}

#[test]
fn scenario_cancel_and_refund() {
    let cfg = config(250, 4);
    let mut game = new_game(&cfg, 1000);
    cancel_game(&mut game, key(SHOOTER), 11).unwrap();
    assert_eq!(game.state, GameState::Canceled);
    assert_eq!(close_game(&mut game, key(SHOOTER)), Err(CrapsError::OutstandingClaims));
    assert_eq!(withdraw_cancelled(&mut game, key(SHOOTER), 1000), Ok(1000));
    assert_eq!(withdraw_cancelled(&mut game, key(SHOOTER), 1000), Err(CrapsError::AlreadyClaimed));
    close_game(&mut game, key(SHOOTER)).unwrap();
    assert!(game.closed);
    assert_eq!(close_game(&mut game, key(SHOOTER)), Err(CrapsError::AlreadyClosed));
}

#[test]
fn cancel_with_faders_refunds_each_stake_once() {
    let cfg = config(250, 4);
    let mut game = new_game(&cfg, 1000);
    join_game(&mut game, &cfg, key(20), 300, 11).unwrap();
    join_game(&mut game, &cfg, key(21), 700, 12).unwrap();
    cancel_game(&mut game, key(SHOOTER), 13).unwrap();
    assert_eq!(withdraw_cancelled(&mut game, key(20), 2000), Ok(300));
    assert_eq!(withdraw_cancelled(&mut game, key(SHOOTER), 1700), Ok(1000));
    assert_eq!(close_game(&mut game, key(SHOOTER)), Err(CrapsError::OutstandingClaims));
    assert_eq!(withdraw_cancelled(&mut game, key(21), 700), Ok(700));
    assert_eq!(withdraw_cancelled(&mut game, key(21), 700), Err(CrapsError::AlreadyClaimed));
    assert_eq!(withdraw_cancelled(&mut game, key(99), 700), Err(CrapsError::NotParticipant));
    assert_eq!(claim_payout(&mut game, key(20), 700), Err(CrapsError::InvalidState));
    assert_eq!(close_game(&mut game, key(20)), Err(CrapsError::Unauthorized));
    close_game(&mut game, key(SHOOTER)).unwrap();
}

#[test]
fn claims_pay_once_and_gate_close() {
    let cfg = config(250, 4);
    let mut game = new_game(&cfg, 1000);
    join_game(&mut game, &cfg, key(20), 300, 11).unwrap();
    join_game(&mut game, &cfg, key(21), 700, 12).unwrap();
    roll(&mut game, &cfg, 50, ROLL_2, 13).unwrap();
    assert_eq!(claim_payout(&mut game, key(20), 100), Err(CrapsError::InsufficientVaultBalance));
    assert_eq!(claim_payout(&mut game, key(20), 2000), Ok(585));
    assert_eq!(claim_payout(&mut game, key(20), 2000), Err(CrapsError::AlreadyClaimed));
    assert_eq!(claim_payout(&mut game, key(SHOOTER), 2000), Err(CrapsError::NothingToClaim));
    assert_eq!(close_game(&mut game, key(SHOOTER)), Err(CrapsError::OutstandingClaims));
    assert_eq!(claim_payout(&mut game, key(21), 1415), Ok(1365));
    close_game(&mut game, key(SHOOTER)).unwrap();
    assert!(game.closed);
}

#[test]
fn join_window_is_inclusive() {
    let cfg = config(250, 4);
    let mut game = new_game(&cfg, 1000);
    join_game(&mut game, &cfg, key(20), 300, 110).unwrap();
    assert_eq!(game.last_action_slot, 110);
    assert_eq!(join_game(&mut game, &cfg, key(21), 300, 211), Err(CrapsError::JoinTimeout));
    join_game(&mut game, &cfg, key(21), 300, 210).unwrap();
    assert_eq!(game.faders.len(), 2);
}

#[test]
fn rejoining_accumulates_stake() {
    let cfg = config(250, 4);
    let mut game = new_game(&cfg, 1000);
    join_game(&mut game, &cfg, key(20), 300, 11).unwrap();
    join_game(&mut game, &cfg, key(20), 200, 12).unwrap();
    assert_eq!(game.faders.len(), 1);
    assert_eq!(game.faders[0].stake, 500);
    assert_eq!(game.total_fader_stake, 500);
    assert_eq!(game.total_pot, 1500);
    assert_eq!(game.find_fader_index(&key(20)), Some(0));
    assert_eq!(game.find_fader_index(&key(21)), None);
}

#[test]
fn join_checks() {
    let cfg = config(250, 1);
    let mut game = new_game(&cfg, 1000);
    assert_eq!(join_game(&mut game, &cfg, key(SHOOTER), 300, 11), Err(CrapsError::ShooterCannotFade));
    assert_eq!(join_game(&mut game, &cfg, key(20), 0, 11), Err(CrapsError::InvalidStake));
    join_game(&mut game, &cfg, key(20), 300, 11).unwrap();
    assert_eq!(join_game(&mut game, &cfg, key(21), 300, 11), Err(CrapsError::TooManyFaders));
    let mut big = new_game(&cfg, u64::MAX);
    assert_eq!(join_game(&mut big, &cfg, key(20), 1, 11), Err(CrapsError::MathOverflow));
    assert_eq!(big.faders.len(), 0);
    roll(&mut game, &cfg, 50, ROLL_6, 12).unwrap();
    assert_eq!(join_game(&mut game, &cfg, key(21), 300, 14), Err(CrapsError::InvalidState));
}

#[test]
fn only_one_pending_request() {
    let cfg = config(250, 4);
    let mut game = new_game(&cfg, 1000);
    assert_eq!(request_roll(&mut game, &cfg, key(SHOOTER), key(50), 11), Err(CrapsError::InvalidState));
    join_game(&mut game, &cfg, key(20), 300, 11).unwrap();
    assert_eq!(request_roll(&mut game, &cfg, key(20), key(50), 12), Err(CrapsError::Unauthorized));
    assert_eq!(request_roll(&mut game, &cfg, key(SHOOTER), [0u8; 32], 12), Err(CrapsError::InvalidRollRequest));
    request_roll(&mut game, &cfg, key(SHOOTER), key(50), 12).unwrap();
    assert_eq!(game.pending_roll_request, key(50));
    assert_eq!(game.state, GameState::Rolling);
    assert_eq!(request_roll(&mut game, &cfg, key(SHOOTER), key(51), 13), Err(CrapsError::InvalidState));
    assert_eq!(game.pending_roll_request, key(50));
}

#[test]
fn roll_request_times_out() {
    let cfg = config(250, 4);
    let mut game = new_game(&cfg, 1000);
    join_game(&mut game, &cfg, key(20), 300, 11).unwrap();
    assert_eq!(request_roll(&mut game, &cfg, key(SHOOTER), key(50), 112), Err(CrapsError::RollRequestTimeout));
    request_roll(&mut game, &cfg, key(SHOOTER), key(50), 111).unwrap();
    assert_eq!(game.last_roll_slot, 111);
}

#[test]
fn snake_eyes_on_first_roll_is_a_loss() {
    assert_eq!(roll_dice(0), (1, 1));
    assert_eq!(roll_dice(36), (1, 1));
    assert_eq!(resolve_roll(0, 2), RollOutcome::ShooterLoses);
    let cfg = config(250, 4);
    let mut game = new_game(&cfg, 1000);
    join_game(&mut game, &cfg, key(20), 1000, 11).unwrap();
    roll(&mut game, &cfg, 50, 36, 12).unwrap();
    assert_eq!(game.state, GameState::Settled);
    assert!(!game.winner_is_shooter);
}

#[test]
fn dice_and_resolution_table() {
    assert_eq!(roll_dice(5), (6, 1));
    assert_eq!(roll_dice(29), (6, 5));
    assert_eq!(resolve_roll(0, 7), RollOutcome::ShooterWins);
    assert_eq!(resolve_roll(0, 11), RollOutcome::ShooterWins);
    assert_eq!(resolve_roll(0, 3), RollOutcome::ShooterLoses);
    assert_eq!(resolve_roll(0, 12), RollOutcome::ShooterLoses);
    assert_eq!(resolve_roll(0, 8), RollOutcome::PointSet(8));
    assert_eq!(resolve_roll(8, 8), RollOutcome::ShooterWins);
    assert_eq!(resolve_roll(8, 7), RollOutcome::ShooterLoses);
    assert_eq!(resolve_roll(8, 11), RollOutcome::NoDecision);
}

#[test]
fn callback_checks_source_and_request() {
    let cfg = config(250, 4);
    let mut game = new_game(&cfg, 1000);
    join_game(&mut game, &cfg, key(20), 300, 11).unwrap();
    let cb = |g: &mut Game, program: u8, exec: bool, oracle: u8, signer: bool, req: u8| {
        consume_randomness_callback(g, &cfg, key(program), exec, key(oracle), signer, key(req), ROLL_7, 20)
    };
    assert_eq!(cb(&mut game, PROGRAM, true, ORACLE, true, 50), Err(CrapsError::InvalidState));
    request_roll(&mut game, &cfg, key(SHOOTER), key(50), 12).unwrap();
    assert_eq!(cb(&mut game, 9, true, ORACLE, true, 50), Err(CrapsError::InvalidRandomnessProgram));
    assert_eq!(cb(&mut game, PROGRAM, false, ORACLE, true, 50), Err(CrapsError::InvalidRandomnessProgram));
    assert_eq!(cb(&mut game, PROGRAM, true, 9, true, 50), Err(CrapsError::Unauthorized));
    assert_eq!(cb(&mut game, PROGRAM, true, ORACLE, false, 50), Err(CrapsError::MissingSigner));
    assert_eq!(cb(&mut game, PROGRAM, true, ORACLE, true, 51), Err(CrapsError::InvalidRollRequest));
    assert_eq!(game.state, GameState::Rolling);
    cb(&mut game, PROGRAM, true, ORACLE, true, 50).unwrap();
    assert_eq!(game.state, GameState::Settled);
    assert_eq!(cb(&mut game, PROGRAM, true, ORACLE, true, 50), Err(CrapsError::InvalidState));
}

#[test]
fn settlement_overflow_leaves_game_rolling() {
    let cfg = config(2500, 4);
    let mut game = new_game(&cfg, u64::MAX / 2);
    join_game(&mut game, &cfg, key(20), 1, 11).unwrap();
    assert_eq!(roll(&mut game, &cfg, 50, ROLL_7, 12), Err(CrapsError::MathOverflow));
    assert_eq!(game.state, GameState::Rolling);
    assert_eq!(game.tax_amount, 0);
}

#[test]
fn no_faders_loss_returns_pot_to_shooter() {
    let cfg = config(1000, 4);
    let mut game = new_game(&cfg, 1000);
    cancel_game(&mut game, key(20), 11).unwrap_err();
    let mut other = new_game(&cfg, 1000);
    assert_eq!(forfeit_unrolled(&mut other, &cfg, key(SHOOTER), 500), Err(CrapsError::InvalidState));
    join_game(&mut game, &cfg, key(20), 500, 11).unwrap();
    forfeit_unrolled(&mut game, &cfg, key(SHOOTER), 112).unwrap();
    assert_eq!(game.tax_amount, 150);
    assert_eq!(payouts(&game), vec![1350]);
}

#[test]
fn config_rules() {
    let bad = |tax: u16, join: u64, roll: u64, max: u8| {
        initialize_config(key(AUTHORITY), key(PROGRAM), key(ORACLE), key(TREASURY), tax, join, roll, max).unwrap_err()
    };
    assert_eq!(bad(2501, 1, 1, 1), CrapsError::InvalidTaxBps);
    assert_eq!(bad(2500, 0, 1, 1), CrapsError::InvalidTimeout);
    assert_eq!(bad(2500, 1, 0, 1), CrapsError::InvalidTimeout);
    assert_eq!(bad(2500, 1, 1, 0), CrapsError::InvalidMaxFaders);
    assert_eq!(bad(2500, 1, 1, 17), CrapsError::InvalidMaxFaders);
    let mut cfg = config(2500, 16);
    assert!(!cfg.frozen);
    assert_eq!(
        update_config(&mut cfg, key(9), 10, 5, 5, 2, key(6), key(7), key(8)),
        Err(CrapsError::Unauthorized)
    );
    update_config(&mut cfg, key(AUTHORITY), 10, 5, 6, 2, key(6), key(7), key(8)).unwrap();
    assert_eq!(cfg.tax_bps, 10);
    assert_eq!(cfg.roll_timeout_slots, 6);
    assert_eq!(cfg.randomness_authority, key(7));
    assert_eq!(
        update_config(&mut cfg, key(AUTHORITY), 3000, 5, 6, 2, key(6), key(7), key(8)),
        Err(CrapsError::InvalidTaxBps)
    );
    assert_eq!(set_config_frozen(&mut cfg, key(9), true), Err(CrapsError::Unauthorized));
    set_config_frozen(&mut cfg, key(AUTHORITY), true).unwrap();
    assert_eq!(
        update_config(&mut cfg, key(AUTHORITY), 10, 5, 6, 2, key(6), key(7), key(8)),
        Err(CrapsError::ConfigFrozen)
    );
    assert!(matches!(create_game(&cfg, key(CONFIG_KEY), 1, key(SHOOTER), 10, 1), Err(CrapsError::ConfigFrozen)));
    set_config_frozen(&mut cfg, key(AUTHORITY), false).unwrap();
    assert!(matches!(create_game(&cfg, key(CONFIG_KEY), 1, key(SHOOTER), 0, 1), Err(CrapsError::InvalidStake)));
}

#[test]
fn craps_error_codes_follow_declaration_order() {
    assert_eq!(CrapsError::Unauthorized.error_code_number(), 6000);
    assert_eq!(CrapsError::InsufficientVaultBalance.error_code_number(), 6020);
    assert_eq!(CrapsError::NothingToClaim.error_code_number(), 6021);
}

#[test]
fn well_formedness_check_accepts_reachable_and_rejects_tampered_records() {
    let cfg = config(250, 4);
    let mut game = new_game(&cfg, 1000);
    assert!(game.is_well_formed());
    join_game(&mut game, &cfg, key(20), 300, 11).unwrap();
    join_game(&mut game, &cfg, key(21), 700, 12).unwrap();
    roll(&mut game, &cfg, 50, ROLL_2, 13).unwrap();
    assert!(game.is_well_formed());
    game.faders[0].payout += 1;
    assert!(!game.is_well_formed());
    game.faders[0].payout -= 1;
    game.faders[1].key = key(20);
    assert!(!game.is_well_formed());
    game.faders[1].key = key(21);
    game.total_pot += 1;
    assert!(!game.is_well_formed());
    game.total_pot -= 1;
    game.pending_roll_request = key(50);
    assert!(!game.is_well_formed());
    game.pending_roll_request = [0u8; 32];
    game.closed = true;
    assert!(!game.is_well_formed());
    game.closed = false;
    assert!(game.is_well_formed());
}
