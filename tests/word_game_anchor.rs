use street_craps::word_game_anchor::{
    consume_randomness_callback, initialize_game, rejection_sample_sum_2_to_12, request_roll,
    validate_randomness_link, GameRandomness, GameState, GameStatus, WordGameError,
};

fn map_byte(b: u8) -> Option<u8> {
    rejection_sample_sum_2_to_12(&[b]).ok()
}

fn key(seed: u8) -> [u8; 32] {
    [seed; 32]
}

#[test]
fn rejection_sampling_is_uniform_across_accepted_domain() {
    let mut counts = [0u16; 11];

    for b in 0u8..253u8 {
        let mapped = map_byte(b).expect("bytes under 253 must map");
        let idx = (mapped - 2) as usize;
        counts[idx] += 1;
    }

    for count in counts {
        assert_eq!(count, 23);
    }
}

#[test]
fn rejection_sampling_uses_next_byte_when_first_is_rejected() {
    let roll = rejection_sample_sum_2_to_12(&[255, 252]).expect("second byte accepted");
    assert_eq!(roll, 12);
}

#[test]
fn rejection_sampling_fails_when_all_bytes_rejected() {
    let err = rejection_sample_sum_2_to_12(&[253, 254, 255]).unwrap_err();
    match err {
        WordGameError::InsufficientRandomnessEntropy => {
            assert_eq!(
                err.error_code_number(),
                6000 + WordGameError::InsufficientRandomnessEntropy as u32
            );
        }
        _ => panic!("unexpected error variant"),
    }
}

#[test]
fn callback_rejects_mismatched_request_id_state() {
    let game_key = key(21);
    let randomness_key = key(22);
    let oracle = key(23);
    let mut game = GameState {
        authority: key(20),
        randomness_account: randomness_key,
        status: GameStatus::PointEstablished,
        settled: false,
        last_request_timestamp: 50,
        request_cooldown_seconds: 5,
        retry_count: 1,
        max_retries: 3,
        last_callback_slot: 9,
        pending_request_id: [3u8; 32],
        last_outcome: 0,
    };

    let mut rand = GameRandomness {
        authority: game.authority,
        game: game_key,
        oracle_authority: oracle,
        last_request_id: [4u8; 32],
        last_fulfilled_request_id: [0u8; 32],
        last_callback_slot: 9,
    };

    let validation =
        consume_randomness_callback(&mut game, game_key, &mut rand, randomness_key, oracle, [3u8; 32], &[7], 32);

    assert!(validation.is_err());
    assert_eq!(validation, Err(WordGameError::RequestCorrelationMismatch));
    assert!(!game.settled);
    assert_eq!(rand.last_fulfilled_request_id, [0u8; 32]);
}

#[test]
fn rejection_sampling_of_empty_bytes_fails() {
    assert_eq!(rejection_sample_sum_2_to_12(&[]), Err(WordGameError::InsufficientRandomnessEntropy));
    assert_eq!(rejection_sample_sum_2_to_12(&[0]), Ok(2));
    assert_eq!(rejection_sample_sum_2_to_12(&[21]), Ok(12));
}

#[test]
fn error_codes_follow_declaration_order() {
    assert_eq!(WordGameError::InvalidGameState.error_code_number(), 6000);
    assert_eq!(WordGameError::InvalidRetryLimit.error_code_number(), 6014);
}

#[test]
fn initialize_game_checks_parameters() {
    let r = initialize_game(key(1), key(2), key(3), key(4), -1, 3);
    assert!(matches!(r, Err(WordGameError::InvalidCooldown)));
    let r = initialize_game(key(1), key(2), key(3), key(4), 0, 0);
    assert!(matches!(r, Err(WordGameError::InvalidRetryLimit)));
    let (game, rand) = initialize_game(key(1), key(2), key(3), key(4), 5, 2).unwrap();
    assert_eq!(game.status, GameStatus::ReadyToRoll);
    assert_eq!(game.randomness_account, key(4));
    assert_eq!(rand.game, key(3));
    assert_eq!(rand.oracle_authority, key(2));
    assert_eq!(validate_randomness_link(&game, key(3), &rand, key(4), key(1)), Ok(()));
    assert_eq!(validate_randomness_link(&game, key(3), &rand, key(4), key(9)), Err(WordGameError::InvalidAuthority));
    assert_eq!(validate_randomness_link(&game, key(3), &rand, key(8), key(1)), Err(WordGameError::RandomnessAccountMismatch));
    assert_eq!(validate_randomness_link(&game, key(8), &rand, key(4), key(1)), Err(WordGameError::GameAccountMismatch));
}

#[test]
fn request_then_deliver_settles_game() {
    let (mut game, mut rand) = initialize_game(key(1), key(2), key(3), key(4), 5, 2).unwrap();
    assert_eq!(request_roll(&mut game, key(3), &mut rand, key(4), key(1), [0u8; 32], 100), Err(WordGameError::InvalidRequestId));
    request_roll(&mut game, key(3), &mut rand, key(4), key(1), key(7), 100).unwrap();
    assert_eq!(game.retry_count, 1);
    assert_eq!(game.pending_request_id, key(7));
    assert_eq!(rand.last_request_id, key(7));
    assert_eq!(request_roll(&mut game, key(3), &mut rand, key(4), key(1), key(8), 104), Err(WordGameError::CooldownActive));
    request_roll(&mut game, key(3), &mut rand, key(4), key(1), key(8), 105).unwrap();
    assert_eq!(request_roll(&mut game, key(3), &mut rand, key(4), key(1), key(9), 200), Err(WordGameError::RetriesExhausted));

    assert_eq!(
        consume_randomness_callback(&mut game, key(3), &mut rand, key(4), key(9), key(8), &[30], 1),
        Err(WordGameError::InvalidOracleAuthority)
    );
    assert_eq!(
        consume_randomness_callback(&mut game, key(3), &mut rand, key(4), key(2), key(8), &[253], 1),
        Err(WordGameError::InsufficientRandomnessEntropy)
    );
    consume_randomness_callback(&mut game, key(3), &mut rand, key(4), key(2), key(8), &[254, 30], 1).unwrap();
    assert!(game.settled);
    assert_eq!(game.status, GameStatus::Settled);
    assert_eq!(game.last_outcome, 30 % 11 + 2);
    assert_eq!(game.pending_request_id, [0u8; 32]);
    assert_eq!(game.retry_count, 0);
    assert_eq!(rand.last_fulfilled_request_id, key(8));
    assert_eq!(
        consume_randomness_callback(&mut game, key(3), &mut rand, key(4), key(2), key(8), &[30], 2),
        Err(WordGameError::GameAlreadySettled)
    );
}
