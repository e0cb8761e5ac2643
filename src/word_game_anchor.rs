//! A randomness-request consumer: the authority asks for a roll under a
//! request id, within a retry budget and a cooldown; the oracle answers with
//! bytes, from which a sum of two to twelve is drawn by rejection sampling.
use vstd::prelude::*;
use crate::anchor_errors::error_code_offset;
use crate::keys::{is_null_key, is_zero_key, keys_equal, null_key};

verus! {

/// The phase of a game.
#[derive(Clone, Copy, Debug, PartialEq, Eq, Structural)]
pub enum GameStatus {
    ReadyToRoll,
    PointEstablished,
    Settled,
}

/// The record of a game.
#[derive(Clone, Copy, Debug)]
pub struct GameState {
    pub authority: [u8; 32],
    pub randomness_account: [u8; 32],
    pub status: GameStatus,
    pub settled: bool,
    pub last_request_timestamp: i64,
    pub request_cooldown_seconds: i64,
    pub retry_count: u8,
    pub max_retries: u8,
    pub last_callback_slot: u64,
    pub pending_request_id: [u8; 32],
    pub last_outcome: u8,
}

/// The record that ties a game to its oracle.
#[derive(Clone, Copy, Debug)]
pub struct GameRandomness {
    pub authority: [u8; 32],
    pub game: [u8; 32],
    pub oracle_authority: [u8; 32],
    pub last_request_id: [u8; 32],
    pub last_fulfilled_request_id: [u8; 32],
    pub last_callback_slot: u64,
}

/// Everything that fails an operation of the consumer.
#[derive(Clone, Copy, Debug, PartialEq, Eq, Structural)]
pub enum WordGameError {
    InvalidGameState,
    CooldownActive,
    GameAlreadySettled,
    RetriesExhausted,
    InvalidRequestId,
    RandomnessAccountMismatch,
    GameAccountMismatch,
    RandomnessAuthorityMismatch,
    InvalidAuthority,
    InvalidOracleAuthority,
    NonMonotonicCallbackSlot,
    RequestCorrelationMismatch,
    InsufficientRandomnessEntropy,
    InvalidCooldown,
    InvalidRetryLimit,
}

impl WordGameError {
    /// The position of the variant in the declaration.
    pub open spec fn position(self) -> u32 {
        match self {
            WordGameError::InvalidGameState => 0,
            WordGameError::CooldownActive => 1,
            WordGameError::GameAlreadySettled => 2,
            WordGameError::RetriesExhausted => 3,
            WordGameError::InvalidRequestId => 4,
            WordGameError::RandomnessAccountMismatch => 5,
            WordGameError::GameAccountMismatch => 6,
            WordGameError::RandomnessAuthorityMismatch => 7,
            WordGameError::InvalidAuthority => 8,
            WordGameError::InvalidOracleAuthority => 9,
            WordGameError::NonMonotonicCallbackSlot => 10,
            WordGameError::RequestCorrelationMismatch => 11,
            WordGameError::InsufficientRandomnessEntropy => 12,
            WordGameError::InvalidCooldown => 13,
            WordGameError::InvalidRetryLimit => 14,
        }
    }

    /// The error's code as the program reports it.
    pub fn error_code_number(&self) -> (r: u32)
        ensures
            r == 6000 + self.position(),
    {
        let position: u32 = match self {
            WordGameError::InvalidGameState => 0,
            WordGameError::CooldownActive => 1,
            WordGameError::GameAlreadySettled => 2,
            WordGameError::RetriesExhausted => 3,
            WordGameError::InvalidRequestId => 4,
            WordGameError::RandomnessAccountMismatch => 5,
            WordGameError::GameAccountMismatch => 6,
            WordGameError::RandomnessAuthorityMismatch => 7,
            WordGameError::InvalidAuthority => 8,
            WordGameError::InvalidOracleAuthority => 9,
            WordGameError::NonMonotonicCallbackSlot => 10,
            WordGameError::RequestCorrelationMismatch => 11,
            WordGameError::InsufficientRandomnessEntropy => 12,
            WordGameError::InvalidCooldown => 13,
            WordGameError::InvalidRetryLimit => 14,
        };
        error_code_offset() + position
    }
}

/// Bytes below this bound are accepted; above it they would bias the sum.
pub const ACCEPTANCE_BOUND: u8 = 253;

/// The number of sums from two to twelve.
pub const BINS: u8 = 11;

/// The first accepted byte of `bytes`, if any.
pub open spec fn first_accepted(bytes: Seq<u8>) -> Option<u8>
    decreases bytes.len(),
{
    if bytes.len() == 0 {
        None
    } else if bytes[0] < ACCEPTANCE_BOUND {
        Some(bytes[0])
    } else {
        first_accepted(bytes.subrange(1, bytes.len() as int))
    }
}

proof fn lemma_first_accepted_skips(bytes: Seq<u8>, i: int)
    requires
        0 <= i <= bytes.len(),
        forall|j: int| 0 <= j < i ==> bytes[j] >= ACCEPTANCE_BOUND,
    ensures
        first_accepted(bytes) == first_accepted(bytes.subrange(i, bytes.len() as int)),
    decreases i,
{
    if i > 0 {
        let rest = bytes.subrange(1, bytes.len() as int);
        lemma_first_accepted_skips(rest, i - 1);
        assert(rest.subrange(i - 1, rest.len() as int) =~= bytes.subrange(i, bytes.len() as int));
    } else {
        assert(bytes.subrange(0, bytes.len() as int) =~= bytes);
    }
}

/// A sum from two to twelve drawn from the first byte below the acceptance
/// bound, which spreads the accepted bytes evenly over the eleven sums.
pub fn rejection_sample_sum_2_to_12(randomness_bytes: &[u8]) -> (r: Result<u8, WordGameError>)
    ensures
        match first_accepted(randomness_bytes@) {
            Some(b) => r == Ok::<u8, WordGameError>((b % BINS + 2) as u8),
            None => r == Err::<u8, WordGameError>(WordGameError::InsufficientRandomnessEntropy),
        },
{
    let n = randomness_bytes.len();
    let mut i: usize = 0;
    while i < n
        invariant
            n == randomness_bytes@.len(),
            0 <= i <= n,
            forall|j: int| 0 <= j < i ==> randomness_bytes@[j] >= ACCEPTANCE_BOUND,
        decreases n - i,
    {
        let byte = randomness_bytes[i];
        if byte < ACCEPTANCE_BOUND {
            proof {
                lemma_first_accepted_skips(randomness_bytes@, i as int);
            }
            return Ok((byte % BINS) + 2);
        }
        i = i + 1;
    }
    proof {
        lemma_first_accepted_skips(randomness_bytes@, n as int);
    }
    Err(WordGameError::InsufficientRandomnessEntropy)
}

/// The first check of `initialize_game` that fails, if any.
pub open spec fn initialize_game_error(request_cooldown_seconds: i64, max_retries: u8) -> Option<WordGameError> {
    if request_cooldown_seconds < 0 {
        Some(WordGameError::InvalidCooldown)
    } else if max_retries == 0 {
        Some(WordGameError::InvalidRetryLimit)
    } else {
        None
    }
}

/// Creates a game ready to roll and its randomness record, linked to each
/// other by their account keys.
pub fn initialize_game(
    authority: [u8; 32],
    oracle_authority: [u8; 32],
    game_key: [u8; 32],
    randomness_key: [u8; 32],
    request_cooldown_seconds: i64,
    max_retries: u8,
) -> (r: Result<(GameState, GameRandomness), WordGameError>)
    ensures
        match initialize_game_error(request_cooldown_seconds, max_retries) {
            Some(e) => r == Err::<(GameState, GameRandomness), WordGameError>(e),
            None => r is Ok,
        },
        r matches Ok((g, rnd)) ==> {
            &&& g.authority == authority
            &&& g.randomness_account == randomness_key
            &&& g.status == GameStatus::ReadyToRoll
            &&& !g.settled
            &&& g.last_request_timestamp == 0
            &&& g.request_cooldown_seconds == request_cooldown_seconds
            &&& g.retry_count == 0
            &&& g.max_retries == max_retries
            &&& g.last_callback_slot == 0
            &&& is_null_key(g.pending_request_id)
            &&& g.last_outcome == 0
            &&& rnd.authority == authority
            &&& rnd.game == game_key
            &&& rnd.oracle_authority == oracle_authority
            &&& is_null_key(rnd.last_request_id)
            &&& is_null_key(rnd.last_fulfilled_request_id)
            &&& rnd.last_callback_slot == 0
        },
{
    if request_cooldown_seconds < 0 {
        return Err(WordGameError::InvalidCooldown);
    }
    if max_retries == 0 {
        return Err(WordGameError::InvalidRetryLimit);
    }
    let game = GameState {
        authority,
        randomness_account: randomness_key,
        status: GameStatus::ReadyToRoll,
        settled: false,
        last_request_timestamp: 0,
        request_cooldown_seconds,
        retry_count: 0,
        max_retries,
        last_callback_slot: 0,
        pending_request_id: null_key(),
        last_outcome: 0,
    };
    let randomness = GameRandomness {
        authority,
        game: game_key,
        oracle_authority,
        last_request_id: null_key(),
        last_fulfilled_request_id: null_key(),
        last_callback_slot: 0,
    };
    Ok((game, randomness))
}

/// The first link between game and randomness record that does not hold, if any.
pub open spec fn link_error(game: GameState, game_key: [u8; 32], randomness: GameRandomness, randomness_key: [u8; 32], expected_authority: [u8; 32]) -> Option<WordGameError> {
    if game.authority != expected_authority {
        Some(WordGameError::InvalidAuthority)
    } else if game.randomness_account != randomness_key {
        Some(WordGameError::RandomnessAccountMismatch)
    } else if randomness.game != game_key {
        Some(WordGameError::GameAccountMismatch)
    } else if randomness.authority != game.authority {
        Some(WordGameError::RandomnessAuthorityMismatch)
    } else {
        None
    }
}

/// Checks that the game and the randomness record point at each other and
/// share the expected authority.
pub fn validate_randomness_link(
    game: &GameState,
    game_key: [u8; 32],
    randomness: &GameRandomness,
    randomness_key: [u8; 32],
    expected_authority: [u8; 32],
) -> (r: Result<(), WordGameError>)
    ensures
        match link_error(*game, game_key, *randomness, randomness_key, expected_authority) {
            Some(e) => r == Err::<(), WordGameError>(e),
            None => r is Ok,
        },
{
    if !keys_equal(&game.authority, &expected_authority) {
        return Err(WordGameError::InvalidAuthority);
    }
    if !keys_equal(&game.randomness_account, &randomness_key) {
        return Err(WordGameError::RandomnessAccountMismatch);
    }
    if !keys_equal(&randomness.game, &game_key) {
        return Err(WordGameError::GameAccountMismatch);
    }
    if !keys_equal(&randomness.authority, &game.authority) {
        return Err(WordGameError::RandomnessAuthorityMismatch);
    }
    Ok(())
}

/// `a - b`, held to the range of `i64`.
pub open spec fn saturating_diff(a: i64, b: i64) -> int {
    if a - b > i64::MAX {
        i64::MAX as int
    } else if a - b < i64::MIN {
        i64::MIN as int
    } else {
        a - b
    }
}

fn elapsed_since(now: i64, then: i64) -> (r: i64)
    ensures
        r == saturating_diff(now, then),
{
    let d: i128 = now as i128 - then as i128;
    if d > i64::MAX as i128 {
        i64::MAX
    } else if d < i64::MIN as i128 {
        i64::MIN
    } else {
        d as i64
    }
}

/// The first check of a roll request that fails, if any.
pub open spec fn roll_request_error(
    game: GameState,
    game_key: [u8; 32],
    randomness: GameRandomness,
    randomness_key: [u8; 32],
    authority_key: [u8; 32],
    request_id: [u8; 32],
    now: i64,
) -> Option<WordGameError> {
    if link_error(game, game_key, randomness, randomness_key, authority_key) is Some {
        link_error(game, game_key, randomness, randomness_key, authority_key)
    } else if !(game.status == GameStatus::ReadyToRoll || game.status == GameStatus::PointEstablished) {
        Some(WordGameError::InvalidGameState)
    } else if game.settled {
        Some(WordGameError::GameAlreadySettled)
    } else if game.last_request_timestamp != 0
        && saturating_diff(now, game.last_request_timestamp) < game.request_cooldown_seconds {
        Some(WordGameError::CooldownActive)
    } else if game.retry_count >= game.max_retries {
        Some(WordGameError::RetriesExhausted)
    } else if is_null_key(request_id) {
        Some(WordGameError::InvalidRequestId)
    } else {
        None
    }
}

/// The authority asks the oracle for a roll under `request_id` at time `now`,
/// spending one retry.
pub fn request_roll(
    game: &mut GameState,
    game_key: [u8; 32],
    randomness: &mut GameRandomness,
    randomness_key: [u8; 32],
    authority_key: [u8; 32],
    request_id: [u8; 32],
    now: i64,
) -> (r: Result<(), WordGameError>)
    ensures
        match roll_request_error(*old(game), game_key, *old(randomness), randomness_key, authority_key, request_id, now) {
            Some(e) => r == Err::<(), WordGameError>(e) && *final(game) == *old(game)
                && *final(randomness) == *old(randomness),
            None => r is Ok && *final(game) == (GameState {
                last_request_timestamp: now,
                retry_count: (old(game).retry_count + 1) as u8,
                pending_request_id: request_id,
                ..*old(game)
            }) && *final(randomness) == (GameRandomness { last_request_id: request_id, ..*old(randomness) }),
        },
{
    validate_randomness_link(game, game_key, randomness, randomness_key, authority_key)?;
    if !(game.status == GameStatus::ReadyToRoll || game.status == GameStatus::PointEstablished) {
        return Err(WordGameError::InvalidGameState);
    }
    if game.settled {
        return Err(WordGameError::GameAlreadySettled);
    }
    if game.last_request_timestamp != 0 {
        let elapsed = elapsed_since(now, game.last_request_timestamp);
        if elapsed < game.request_cooldown_seconds {
            return Err(WordGameError::CooldownActive);
        }
    }
    if game.retry_count >= game.max_retries {
        return Err(WordGameError::RetriesExhausted);
    }
    if is_zero_key(&request_id) {
        return Err(WordGameError::InvalidRequestId);
    }
    game.last_request_timestamp = now;
    game.retry_count = game.retry_count + 1;
    game.pending_request_id = request_id;
    randomness.last_request_id = request_id;
    Ok(())
}

/// The first check of an oracle delivery that fails, if any.
pub open spec fn delivery_error(
    game: GameState,
    game_key: [u8; 32],
    randomness: GameRandomness,
    randomness_key: [u8; 32],
    oracle_authority_key: [u8; 32],
    request_id: [u8; 32],
    randomness_bytes: Seq<u8>,
    slot: u64,
) -> Option<WordGameError> {
    if link_error(game, game_key, randomness, randomness_key, game.authority) is Some {
        link_error(game, game_key, randomness, randomness_key, game.authority)
    } else if oracle_authority_key != randomness.oracle_authority {
        Some(WordGameError::InvalidOracleAuthority)
    } else if game.settled {
        Some(WordGameError::GameAlreadySettled)
    } else if is_null_key(request_id) {
        Some(WordGameError::InvalidRequestId)
    } else if slot <= game.last_callback_slot || slot <= randomness.last_callback_slot {
        Some(WordGameError::NonMonotonicCallbackSlot)
    } else if game.pending_request_id != request_id || randomness.last_request_id != request_id {
        Some(WordGameError::RequestCorrelationMismatch)
    } else if first_accepted(randomness_bytes) is None {
        Some(WordGameError::InsufficientRandomnessEntropy)
    } else {
        None
    }
}

/// The oracle answers the pending request at `slot`: the game is settled with
/// the sum drawn from the bytes, and the request is marked fulfilled.
pub fn consume_randomness_callback(
    game: &mut GameState,
    game_key: [u8; 32],
    randomness: &mut GameRandomness,
    randomness_key: [u8; 32],
    oracle_authority_key: [u8; 32],
    request_id: [u8; 32],
    randomness_bytes: &[u8],
    slot: u64,
) -> (r: Result<(), WordGameError>)
    ensures
        match delivery_error(*old(game), game_key, *old(randomness), randomness_key, oracle_authority_key,
            request_id, randomness_bytes@, slot) {
            Some(e) => r == Err::<(), WordGameError>(e) && *final(game) == *old(game)
                && *final(randomness) == *old(randomness),
            None => r is Ok && *final(game) == (GameState {
                last_outcome: (first_accepted(randomness_bytes@)->0 % BINS + 2) as u8,
                last_callback_slot: slot,
                pending_request_id: final(game).pending_request_id,
                retry_count: 0,
                settled: true,
                status: GameStatus::Settled,
                ..*old(game)
            }) && is_null_key(final(game).pending_request_id) && *final(randomness) == (GameRandomness {
                last_fulfilled_request_id: request_id,
                last_callback_slot: slot,
                ..*old(randomness)
            }),
        },
{
    let authority = game.authority;
    validate_randomness_link(game, game_key, randomness, randomness_key, authority)?;
    if !keys_equal(&oracle_authority_key, &randomness.oracle_authority) {
        return Err(WordGameError::InvalidOracleAuthority);
    }
    if game.settled {
        return Err(WordGameError::GameAlreadySettled);
    }
    if is_zero_key(&request_id) {
        return Err(WordGameError::InvalidRequestId);
    }
    if slot <= game.last_callback_slot {
        return Err(WordGameError::NonMonotonicCallbackSlot);
    }
    if slot <= randomness.last_callback_slot {
        return Err(WordGameError::NonMonotonicCallbackSlot);
    }
    if !keys_equal(&game.pending_request_id, &request_id) {
        return Err(WordGameError::RequestCorrelationMismatch);
    }
    if !keys_equal(&randomness.last_request_id, &request_id) {
        return Err(WordGameError::RequestCorrelationMismatch);
    }
    let outcome = rejection_sample_sum_2_to_12(randomness_bytes)?;
    game.last_outcome = outcome;
    game.last_callback_slot = slot;
    game.pending_request_id = null_key();
    game.retry_count = 0;
    game.settled = true;
    game.status = GameStatus::Settled;
    randomness.last_fulfilled_request_id = request_id;
    randomness.last_callback_slot = slot;
    Ok(())
}

} // verus!
