//! The operations of the dice game: configuration, creating and joining a
//! game, the roll cycle, forfeiture, cancellation, claims and closing.
//!
//! Every operation is all-or-nothing: on an error the game and the
//! configuration are left exactly as they were. The host supplies the signer
//! of each operation, the current slot, and moves the funds that an operation
//! reports.
use vstd::prelude::*;
use crate::game::{
    stakes_of, Config, CrapsError, FaderEntry, Game, GameState, MAX_FADERS, MAX_TAX_BPS,
};
use crate::keys::{is_null_key, is_zero_key, keys_equal, null_key};
use crate::settlement::{is_settlement_of, lemma_settlement_conserves_pot, settle_game, settlement_overflows};
use crate::sums::{lemma_seq_sum_push, lemma_seq_sum_update};

verus! {

/// The first limit that the parameters of a configuration break, if any.
pub open spec fn config_params_error(tax_bps: u16, join_timeout_slots: u64, roll_timeout_slots: u64, max_faders: u8) -> Option<CrapsError> {
    if tax_bps > MAX_TAX_BPS {
        Some(CrapsError::InvalidTaxBps)
    } else if join_timeout_slots == 0 || roll_timeout_slots == 0 {
        Some(CrapsError::InvalidTimeout)
    } else if !(1 <= max_faders <= MAX_FADERS) {
        Some(CrapsError::InvalidMaxFaders)
    } else {
        None
    }
}

fn check_config_params(tax_bps: u16, join_timeout_slots: u64, roll_timeout_slots: u64, max_faders: u8) -> (r: Result<(), CrapsError>)
    ensures
        r is Err <==> config_params_error(tax_bps, join_timeout_slots, roll_timeout_slots, max_faders) is Some,
        r is Err ==> r == Err::<(), CrapsError>(config_params_error(tax_bps, join_timeout_slots, roll_timeout_slots, max_faders)->0),
{
    if tax_bps > MAX_TAX_BPS {
        return Err(CrapsError::InvalidTaxBps);
    }
    if join_timeout_slots == 0 || roll_timeout_slots == 0 {
        return Err(CrapsError::InvalidTimeout);
    }
    if max_faders == 0 || max_faders as usize > MAX_FADERS {
        return Err(CrapsError::InvalidMaxFaders);
    }
    Ok(())
}

/// Creates the configuration of a deployment, unfrozen.
pub fn initialize_config(
    authority: [u8; 32],
    randomness_program: [u8; 32],
    randomness_authority: [u8; 32],
    treasury: [u8; 32],
    tax_bps: u16,
    join_timeout_slots: u64,
    roll_timeout_slots: u64,
    max_faders: u8,
) -> (r: Result<Config, CrapsError>)
    ensures
        match config_params_error(tax_bps, join_timeout_slots, roll_timeout_slots, max_faders) {
            Some(e) => r == Err::<Config, CrapsError>(e),
            None => r is Ok,
        },
        r matches Ok(c) ==> c.wf() && c == (Config {
            authority,
            randomness_program,
            randomness_authority,
            treasury,
            tax_bps,
            max_faders,
            frozen: false,
            join_timeout_slots,
            roll_timeout_slots,
        }),
{
    check_config_params(tax_bps, join_timeout_slots, roll_timeout_slots, max_faders)?;
    Ok(Config {
        authority,
        randomness_program,
        randomness_authority,
        treasury,
        tax_bps,
        max_faders,
        frozen: false,
        join_timeout_slots,
        roll_timeout_slots,
    })
}

/// The first check that an update of the configuration fails, if any.
pub open spec fn update_config_error(config: Config, signer: [u8; 32], tax_bps: u16, join_timeout_slots: u64, roll_timeout_slots: u64, max_faders: u8) -> Option<CrapsError> {
    if config.frozen {
        Some(CrapsError::ConfigFrozen)
    } else if signer != config.authority {
        Some(CrapsError::Unauthorized)
    } else {
        config_params_error(tax_bps, join_timeout_slots, roll_timeout_slots, max_faders)
    }
}

/// Overwrites the parameters of an unfrozen configuration; only its authority may.
pub fn update_config(
    config: &mut Config,
    signer: [u8; 32],
    tax_bps: u16,
    join_timeout_slots: u64,
    roll_timeout_slots: u64,
    max_faders: u8,
    randomness_program: [u8; 32],
    randomness_authority: [u8; 32],
    treasury: [u8; 32],
) -> (r: Result<(), CrapsError>)
    ensures
        match update_config_error(*old(config), signer, tax_bps, join_timeout_slots, roll_timeout_slots, max_faders) {
            Some(e) => r == Err::<(), CrapsError>(e) && *final(config) == *old(config),
            None => r is Ok && *final(config) == (Config {
                tax_bps,
                join_timeout_slots,
                roll_timeout_slots,
                max_faders,
                randomness_program,
                randomness_authority,
                treasury,
                ..*old(config)
            }),
        },
        old(config).wf() ==> final(config).wf(),
{
    if config.frozen {
        return Err(CrapsError::ConfigFrozen);
    }
    if !keys_equal(&signer, &config.authority) {
        return Err(CrapsError::Unauthorized);
    }
    check_config_params(tax_bps, join_timeout_slots, roll_timeout_slots, max_faders)?;
    config.tax_bps = tax_bps;
    config.join_timeout_slots = join_timeout_slots;
    config.roll_timeout_slots = roll_timeout_slots;
    config.max_faders = max_faders;
    config.randomness_program = randomness_program;
    config.randomness_authority = randomness_authority;
    config.treasury = treasury;
    Ok(())
}

/// Freezes or unfreezes the configuration; only its authority may.
pub fn set_config_frozen(config: &mut Config, signer: [u8; 32], frozen: bool) -> (r: Result<(), CrapsError>)
    ensures
        signer != old(config).authority ==> r == Err::<(), CrapsError>(CrapsError::Unauthorized)
            && *final(config) == *old(config),
        signer == old(config).authority ==> r is Ok && *final(config) == (Config { frozen, ..*old(config) }),
{
    if !keys_equal(&signer, &config.authority) {
        return Err(CrapsError::Unauthorized);
    }
    config.frozen = frozen;
    Ok(())
}

/// The record of a game that `shooter` opens with `shooter_stake` at `slot`.
pub open spec fn opened_game(config_key: [u8; 32], game_id: u64, shooter: [u8; 32], shooter_stake: u64, slot: u64, g: Game) -> bool {
    &&& g.game_id == game_id
    &&& g.config == config_key
    &&& g.shooter == shooter
    &&& g.state == GameState::Open
    &&& g.shooter_stake == shooter_stake
    &&& g.total_fader_stake == 0
    &&& g.total_pot == shooter_stake
    &&& g.tax_amount == 0
    &&& g.point == 0
    &&& !g.winner_is_shooter
    &&& is_null_key(g.pending_roll_request)
    &&& g.last_roll_slot == 0
    &&& g.last_action_slot == slot
    &&& !g.closed
    &&& g.faders@.len() == 0
    &&& g.shooter_payout == 0
    &&& !g.shooter_claimed
}

/// Opens a game: the shooter's stake is the whole pot. The host then moves
/// `shooter_stake` from the shooter into the game.
pub fn create_game(config: &Config, config_key: [u8; 32], game_id: u64, shooter: [u8; 32], shooter_stake: u64, slot: u64) -> (r: Result<Game, CrapsError>)
    ensures
        config.frozen ==> r == Err::<Game, CrapsError>(CrapsError::ConfigFrozen),
        !config.frozen && shooter_stake == 0 ==> r == Err::<Game, CrapsError>(CrapsError::InvalidStake),
        !config.frozen && shooter_stake > 0 ==> r is Ok,
        r matches Ok(g) ==> g.wf() && opened_game(config_key, game_id, shooter, shooter_stake, slot, g),
{
    if config.frozen {
        return Err(CrapsError::ConfigFrozen);
    }
    if shooter_stake == 0 {
        return Err(CrapsError::InvalidStake);
    }
    let g = Game {
        game_id,
        config: config_key,
        shooter,
        state: GameState::Open,
        shooter_stake,
        total_fader_stake: 0,
        total_pot: shooter_stake,
        tax_amount: 0,
        point: 0,
        winner_is_shooter: false,
        pending_roll_request: null_key(),
        last_roll_slot: 0,
        last_action_slot: slot,
        closed: false,
        faders: Vec::new(),
        shooter_payout: 0,
        shooter_claimed: false,
    };
    proof {
        assert(stakes_of(g.faders@) =~= Seq::<int>::empty());
    }
    Ok(g)
}

impl Game {
    /// The slot of the fader table that `fader` holds, if any.
    pub fn find_fader_index(&self, fader: &[u8; 32]) -> (r: Option<usize>)
        ensures
            r is None <==> !self.has_fader(*fader),
            r matches Some(i) ==> i < self.faders@.len() && self.faders@[i as int].key == *fader
                && forall|j: int| 0 <= j < i ==> #[trigger] self.faders@[j].key != *fader,
    {
        let n = self.faders.len();
        let mut i: usize = 0;
        while i < n
            invariant
                n == self.faders@.len(),
                0 <= i <= n,
                forall|j: int| 0 <= j < i ==> #[trigger] self.faders@[j].key != *fader,
            decreases n - i,
        {
            if keys_equal(&self.faders[i].key, fader) {
                return Some(i);
            }
            i = i + 1;
        }
        None
    }
}

/// The first check that a join fails, if any.
pub open spec fn join_error(g: Game, config: Config, fader: [u8; 32], fader_stake: u64, slot: u64) -> Option<CrapsError> {
    if config.frozen {
        Some(CrapsError::ConfigFrozen)
    } else if !g.state.accepts_joins() {
        Some(CrapsError::InvalidState)
    } else if fader == g.shooter {
        Some(CrapsError::ShooterCannotFade)
    } else if fader_stake == 0 {
        Some(CrapsError::InvalidStake)
    } else if g.faders@.len() >= config.max_faders || g.faders@.len() >= MAX_FADERS {
        Some(CrapsError::TooManyFaders)
    } else if slot > g.last_action_slot + config.join_timeout_slots {
        Some(CrapsError::JoinTimeout)
    } else if g.total_pot + fader_stake > u64::MAX {
        Some(CrapsError::MathOverflow)
    } else {
        None
    }
}

/// The fader table after `fader` stakes `fader_stake` more: an existing slot
/// grows, a new fader takes the next slot.
pub open spec fn joined_faders(faders: Seq<FaderEntry>, fader: [u8; 32], fader_stake: u64) -> Seq<FaderEntry> {
    if exists|i: int| 0 <= i < faders.len() && #[trigger] faders[i].key == fader {
        faders.map_values(|f: FaderEntry| if f.key == fader {
            FaderEntry { stake: (f.stake + fader_stake) as u64, ..f }
        } else {
            f
        })
    } else {
        faders.push(FaderEntry { key: fader, stake: fader_stake, payout: 0, claimed: false })
    }
}

/// A fader stakes against the shooter, while the game is open or ready and
/// within the join window, which each join restarts. The host then moves
/// `fader_stake` from the fader into the game.
pub fn join_game(game: &mut Game, config: &Config, fader: [u8; 32], fader_stake: u64, slot: u64) -> (r: Result<(), CrapsError>)
    requires
        old(game).wf(),
    ensures
        final(game).wf(),
        match join_error(*old(game), *config, fader, fader_stake, slot) {
            Some(e) => r == Err::<(), CrapsError>(e) && *final(game) == *old(game),
            None => r is Ok && *final(game) == (Game {
                state: GameState::ReadyToRoll,
                total_fader_stake: (old(game).total_fader_stake + fader_stake) as u64,
                total_pot: (old(game).total_pot + fader_stake) as u64,
                last_action_slot: slot,
                faders: final(game).faders,
                ..*old(game)
            }) && final(game).faders@ == joined_faders(old(game).faders@, fader, fader_stake),
        },
{
    let ghost g0 = *game;
    if config.frozen {
        return Err(CrapsError::ConfigFrozen);
    }
    if !(game.state == GameState::Open || game.state == GameState::ReadyToRoll) {
        return Err(CrapsError::InvalidState);
    }
    if keys_equal(&game.shooter, &fader) {
        return Err(CrapsError::ShooterCannotFade);
    }
    if fader_stake == 0 {
        return Err(CrapsError::InvalidStake);
    }
    if game.faders.len() >= config.max_faders as usize || game.faders.len() >= MAX_FADERS {
        return Err(CrapsError::TooManyFaders);
    }
    if slot > game.last_action_slot.saturating_add(config.join_timeout_slots) {
        return Err(CrapsError::JoinTimeout);
    }
    if game.total_pot > u64::MAX - fader_stake {
        return Err(CrapsError::MathOverflow);
    }
    proof {
        crate::sums::lemma_seq_sum_nonneg(stakes_of(g0.faders@));
    }
    match game.find_fader_index(&fader) {
        Some(idx) => {
            let e = game.faders[idx];
            assert(stakes_of(g0.faders@)[idx as int] == e.stake);
            let grown = FaderEntry { key: e.key, stake: e.stake + fader_stake, payout: e.payout, claimed: e.claimed };
            game.faders.set(idx, grown);
            proof {
                assert(game.faders@ =~= joined_faders(g0.faders@, fader, fader_stake)) by {
                    assert(g0.faders@[idx as int].key == fader);
                }
                assert(stakes_of(game.faders@) =~= stakes_of(g0.faders@).update(idx as int, grown.stake as int));
                lemma_seq_sum_update(stakes_of(g0.faders@), idx as int, grown.stake as int);
            }
        },
        None => {
            let entry = FaderEntry { key: fader, stake: fader_stake, payout: 0, claimed: false };
            game.faders.push(entry);
            proof {
                assert(stakes_of(game.faders@) =~= stakes_of(g0.faders@).push(fader_stake as int));
                lemma_seq_sum_push(stakes_of(g0.faders@), fader_stake as int);
            }
        },
    }
    game.total_fader_stake = game.total_fader_stake + fader_stake;
    game.total_pot = game.total_pot + fader_stake;
    game.state = GameState::ReadyToRoll;
    game.last_action_slot = slot;
    Ok(())
}

/// The first check that a roll request fails, if any.
pub open spec fn request_roll_error(g: Game, config: Config, signer: [u8; 32], roll_request: [u8; 32], slot: u64) -> Option<CrapsError> {
    if config.frozen {
        Some(CrapsError::ConfigFrozen)
    } else if signer != g.shooter {
        Some(CrapsError::Unauthorized)
    } else if !g.state.awaits_roll() {
        Some(CrapsError::InvalidState)
    } else if is_null_key(roll_request) {
        Some(CrapsError::InvalidRollRequest)
    } else if !is_null_key(g.pending_roll_request) {
        Some(CrapsError::InvalidState)
    } else if slot > g.last_action_slot + config.roll_timeout_slots {
        Some(CrapsError::RollRequestTimeout)
    } else {
        None
    }
}

/// The shooter asks the randomness source for a roll, naming the request
/// that the delivery must answer.
pub fn request_roll(game: &mut Game, config: &Config, signer: [u8; 32], roll_request: [u8; 32], slot: u64) -> (r: Result<(), CrapsError>)
    requires
        old(game).wf(),
    ensures
        final(game).wf(),
        match request_roll_error(*old(game), *config, signer, roll_request, slot) {
            Some(e) => r == Err::<(), CrapsError>(e) && *final(game) == *old(game),
            None => r is Ok && *final(game) == (Game {
                pending_roll_request: roll_request,
                state: GameState::Rolling,
                last_roll_slot: slot,
                last_action_slot: slot,
                ..*old(game)
            }),
        },
{
    if config.frozen {
        return Err(CrapsError::ConfigFrozen);
    }
    if !keys_equal(&signer, &game.shooter) {
        return Err(CrapsError::Unauthorized);
    }
    if !(game.state == GameState::ReadyToRoll || game.state == GameState::PointEstablished) {
        return Err(CrapsError::InvalidState);
    }
    if is_zero_key(&roll_request) {
        return Err(CrapsError::InvalidRollRequest);
    }
    if !is_zero_key(&game.pending_roll_request) {
        return Err(CrapsError::InvalidState);
    }
    if slot > game.last_action_slot.saturating_add(config.roll_timeout_slots) {
        return Err(CrapsError::RollRequestTimeout);
    }
    game.pending_roll_request = roll_request;
    game.state = GameState::Rolling;
    game.last_roll_slot = slot;
    game.last_action_slot = slot;
    Ok(())
}

/// What one roll decides.
#[derive(Clone, Copy, Debug, PartialEq, Eq, Structural)]
pub enum RollOutcome {
    ShooterWins,
    ShooterLoses,
    /// The first roll set this point.
    PointSet(u8),
    /// Neither the point nor a seven: roll again.
    NoDecision,
}

/// The two dice read from an entropy word.
pub open spec fn dice_of(random_word: u64) -> (int, int) {
    ((random_word % 6) as int + 1, ((random_word / 6) % 6) as int + 1)
}

/// What a roll of `roll` decides, with `point` zero before a point is set.
pub open spec fn outcome_of(point: u8, roll: int) -> RollOutcome {
    if point == 0 {
        if roll == 7 || roll == 11 {
            RollOutcome::ShooterWins
        } else if roll == 2 || roll == 3 || roll == 12 {
            RollOutcome::ShooterLoses
        } else {
            RollOutcome::PointSet(roll as u8)
        }
    } else if roll == point {
        RollOutcome::ShooterWins
    } else if roll == 7 {
        RollOutcome::ShooterLoses
    } else {
        RollOutcome::NoDecision
    }
}

/// Two dice from one entropy word: the word modulo six, and the word over six modulo six.
pub fn roll_dice(random_word: u64) -> (r: (u8, u8))
    ensures
        (r.0 as int, r.1 as int) == dice_of(random_word),
        1 <= r.0 <= 6,
        1 <= r.1 <= 6,
{
    let die_one = (random_word % 6) as u8 + 1;
    let die_two = ((random_word / 6) % 6) as u8 + 1;
    (die_one, die_two)
}

/// Decides a roll of `roll` against `point`.
pub fn resolve_roll(point: u8, roll: u8) -> (r: RollOutcome)
    ensures
        r == outcome_of(point, roll as int),
{
    if point == 0 {
        if roll == 7 || roll == 11 {
            RollOutcome::ShooterWins
        } else if roll == 2 || roll == 3 || roll == 12 {
            RollOutcome::ShooterLoses
        } else {
            RollOutcome::PointSet(roll)
        }
    } else if roll == point {
        RollOutcome::ShooterWins
    } else if roll == 7 {
        RollOutcome::ShooterLoses
    } else {
        RollOutcome::NoDecision
    }
}

/// What the entropy word decides for `g`.
pub open spec fn callback_outcome(g: Game, random_word: u64) -> RollOutcome {
    outcome_of(g.point, dice_of(random_word).0 + dice_of(random_word).1)
}

/// The first check that a randomness delivery fails, if any.
pub open spec fn callback_error(
    g: Game,
    config: Config,
    randomness_program: [u8; 32],
    program_executable: bool,
    randomness_authority: [u8; 32],
    authority_is_signer: bool,
    roll_request: [u8; 32],
    random_word: u64,
) -> Option<CrapsError> {
    if randomness_program != config.randomness_program || !program_executable {
        Some(CrapsError::InvalidRandomnessProgram)
    } else if randomness_authority != config.randomness_authority {
        Some(CrapsError::Unauthorized)
    } else if !authority_is_signer {
        Some(CrapsError::MissingSigner)
    } else if g.state != GameState::Rolling {
        Some(CrapsError::InvalidState)
    } else if g.pending_roll_request != roll_request {
        Some(CrapsError::InvalidRollRequest)
    } else {
        match callback_outcome(g, random_word) {
            RollOutcome::ShooterWins => if settlement_overflows(g, config.tax_bps, true) {
                Some(CrapsError::MathOverflow)
            } else {
                None
            },
            RollOutcome::ShooterLoses => if settlement_overflows(g, config.tax_bps, false) {
                Some(CrapsError::MathOverflow)
            } else {
                None
            },
            _ => None,
        }
    }
}

/// A settled game whose request is spent and whose last action is stamped
/// keeps the invariant.
proof fn lemma_settled_wf(before: Game, after: Game, bps: u16, shooter_wins: bool, stamped: Game)
    requires
        before.wf(),
        !before.state.is_terminal(),
        before.state != GameState::Open,
        is_settlement_of(before, after, bps, shooter_wins),
        is_null_key(stamped.pending_roll_request),
        stamped == (Game {
            pending_roll_request: stamped.pending_roll_request,
            last_action_slot: stamped.last_action_slot,
            ..after
        }),
    ensures
        stamped.wf(),
{
    lemma_settlement_conserves_pot(before, after, bps, shooter_wins);
    assert(stakes_of(after.faders@) =~= stakes_of(before.faders@));
}

/// The change that an accepted delivery of `random_word` makes, from `before`
/// to `after`: the request is spent and the roll's outcome applied.
pub open spec fn callback_effect(before: Game, after: Game, bps: u16, random_word: u64, slot: u64) -> bool {
    let unstamped = Game {
        pending_roll_request: before.pending_roll_request,
        last_action_slot: before.last_action_slot,
        ..after
    };
    &&& is_null_key(after.pending_roll_request)
    &&& after.last_action_slot == slot
    &&& match callback_outcome(before, random_word) {
        RollOutcome::ShooterWins => is_settlement_of(before, unstamped, bps, true),
        RollOutcome::ShooterLoses => is_settlement_of(before, unstamped, bps, false),
        RollOutcome::PointSet(p) => unstamped == Game { point: p, state: GameState::PointEstablished, ..before },
        RollOutcome::NoDecision => unstamped == Game { state: GameState::PointEstablished, ..before },
    }
}

/// The randomness source delivers the entropy word for the pending request.
/// The roll either settles the game, sets the point, or leaves it to another
/// roll; in every case the request is spent.
pub fn consume_randomness_callback(
    game: &mut Game,
    config: &Config,
    randomness_program: [u8; 32],
    program_executable: bool,
    randomness_authority: [u8; 32],
    authority_is_signer: bool,
    roll_request: [u8; 32],
    random_word: u64,
    slot: u64,
) -> (r: Result<(), CrapsError>)
    requires
        old(game).wf(),
    ensures
        final(game).wf(),
        match callback_error(*old(game), *config, randomness_program, program_executable,
            randomness_authority, authority_is_signer, roll_request, random_word) {
            Some(e) => r == Err::<(), CrapsError>(e) && *final(game) == *old(game),
            None => r is Ok && callback_effect(*old(game), *final(game), config.tax_bps, random_word, slot),
        },
{
    let ghost g0 = *game;
    if !keys_equal(&randomness_program, &config.randomness_program) || !program_executable {
        return Err(CrapsError::InvalidRandomnessProgram);
    }
    if !keys_equal(&randomness_authority, &config.randomness_authority) {
        return Err(CrapsError::Unauthorized);
    }
    if !authority_is_signer {
        return Err(CrapsError::MissingSigner);
    }
    if game.state != GameState::Rolling {
        return Err(CrapsError::InvalidState);
    }
    if !keys_equal(&game.pending_roll_request, &roll_request) {
        return Err(CrapsError::InvalidRollRequest);
    }
    let (die_one, die_two) = roll_dice(random_word);
    let roll = die_one + die_two;
    let ghost mut mid = g0;
    match resolve_roll(game.point, roll) {
        RollOutcome::ShooterWins => {
            settle_game(game, config, true)?;
            proof {
                mid = *game;
            }
        },
        RollOutcome::ShooterLoses => {
            settle_game(game, config, false)?;
            proof {
                mid = *game;
            }
        },
        RollOutcome::PointSet(p) => {
            game.point = p;
            game.state = GameState::PointEstablished;
        },
        RollOutcome::NoDecision => {
            game.state = GameState::PointEstablished;
        },
    }
    game.pending_roll_request = null_key();
    game.last_action_slot = slot;
    proof {
        match callback_outcome(g0, random_word) {
            RollOutcome::ShooterWins => lemma_settled_wf(g0, mid, config.tax_bps, true, *game),
            RollOutcome::ShooterLoses => lemma_settled_wf(g0, mid, config.tax_bps, false, *game),
            _ => {},
        }
    }
    Ok(())
}

/// The first check that a forfeiture fails, if any.
pub open spec fn forfeit_error(g: Game, config: Config, caller: [u8; 32], slot: u64) -> Option<CrapsError> {
    if caller != g.shooter && !g.has_fader(caller) {
        Some(CrapsError::Unauthorized)
    } else if !g.state.awaits_roll() {
        Some(CrapsError::InvalidState)
    } else if slot <= g.last_action_slot + config.roll_timeout_slots {
        Some(CrapsError::RollWindowActive)
    } else if settlement_overflows(g, config.tax_bps, false) {
        Some(CrapsError::MathOverflow)
    } else {
        None
    }
}

/// The change that a forfeiture makes: a loss for the shooter, stamped at `slot`.
pub open spec fn forfeit_effect(before: Game, after: Game, bps: u16, slot: u64) -> bool {
    &&& after.last_action_slot == slot
    &&& is_settlement_of(before, Game { last_action_slot: before.last_action_slot, ..after }, bps, false)
}

/// Once the shooter has let the roll window lapse, the shooter or any fader
/// settles the game as a loss for the shooter.
pub fn forfeit_unrolled(game: &mut Game, config: &Config, caller: [u8; 32], slot: u64) -> (r: Result<(), CrapsError>)
    requires
        old(game).wf(),
    ensures
        final(game).wf(),
        match forfeit_error(*old(game), *config, caller, slot) {
            Some(e) => r == Err::<(), CrapsError>(e) && *final(game) == *old(game),
            None => r is Ok && forfeit_effect(*old(game), *final(game), config.tax_bps, slot),
        },
{
    let ghost g0 = *game;
    if !keys_equal(&caller, &game.shooter) && game.find_fader_index(&caller).is_none() {
        return Err(CrapsError::Unauthorized);
    }
    if !(game.state == GameState::ReadyToRoll || game.state == GameState::PointEstablished) {
        return Err(CrapsError::InvalidState);
    }
    if slot <= game.last_action_slot.saturating_add(config.roll_timeout_slots) {
        return Err(CrapsError::RollWindowActive);
    }
    settle_game(game, config, false)?;
    let ghost mid = *game;
    game.last_action_slot = slot;
    proof {
        lemma_settled_wf(g0, mid, config.tax_bps, false, *game);
    }
    Ok(())
}

/// The first check that a cancellation fails, if any.
pub open spec fn cancel_error(g: Game, signer: [u8; 32]) -> Option<CrapsError> {
    if signer != g.shooter {
        Some(CrapsError::Unauthorized)
    } else if !g.state.accepts_joins() {
        Some(CrapsError::InvalidState)
    } else {
        None
    }
}

/// The shooter calls the game off before any roll; everyone may then take
/// their stake back.
pub fn cancel_game(game: &mut Game, signer: [u8; 32], slot: u64) -> (r: Result<(), CrapsError>)
    requires
        old(game).wf(),
    ensures
        final(game).wf(),
        match cancel_error(*old(game), signer) {
            Some(e) => r == Err::<(), CrapsError>(e) && *final(game) == *old(game),
            None => r is Ok && *final(game) == (Game {
                state: GameState::Canceled,
                last_action_slot: slot,
                ..*old(game)
            }),
        },
{
    if !keys_equal(&signer, &game.shooter) {
        return Err(CrapsError::Unauthorized);
    }
    if !(game.state == GameState::Open || game.state == GameState::ReadyToRoll) {
        return Err(CrapsError::InvalidState);
    }
    game.state = GameState::Canceled;
    game.last_action_slot = slot;
    Ok(())
}

/// The slot that `key` holds in the fader table, when it holds one.
pub open spec fn fader_slot(g: Game, key: [u8; 32]) -> int {
    choose|i: int| 0 <= i < g.faders@.len() && g.faders@[i].key == key
}

/// What `claimer` is owed in `g`, and whether it has already been paid.
pub open spec fn claim_terms(g: Game, claimer: [u8; 32]) -> (int, bool) {
    if claimer == g.shooter {
        (g.shooter_entitlement(), g.shooter_claimed)
    } else {
        let i = fader_slot(g, claimer);
        (g.fader_entitlement(i), g.faders@[i].claimed)
    }
}

/// The first check that a claim in phase `phase` fails, if any.
pub open spec fn claim_error(g: Game, phase: GameState, claimer: [u8; 32], vault_lamports: u64) -> Option<CrapsError> {
    if g.state != phase {
        Some(CrapsError::InvalidState)
    } else if claimer != g.shooter && !g.has_fader(claimer) {
        Some(CrapsError::NotParticipant)
    } else if claim_terms(g, claimer).1 {
        Some(CrapsError::AlreadyClaimed)
    } else if claim_terms(g, claimer).0 == 0 {
        Some(CrapsError::NothingToClaim)
    } else if claim_terms(g, claimer).0 > vault_lamports {
        Some(CrapsError::InsufficientVaultBalance)
    } else {
        None
    }
}

/// The change that a successful claim by `claimer` makes: it is marked paid.
pub open spec fn claim_effect(before: Game, after: Game, claimer: [u8; 32]) -> bool {
    if claimer == before.shooter {
        after == Game { shooter_claimed: true, ..before }
    } else {
        let i = fader_slot(before, claimer);
        &&& after == Game { faders: after.faders, ..before }
        &&& after.faders@ == before.faders@.update(i, FaderEntry { claimed: true, ..before.faders@[i] })
    }
}

fn claim_entitlement(game: &mut Game, phase: GameState, claimer: [u8; 32], vault_lamports: u64) -> (r: Result<u64, CrapsError>)
    requires
        old(game).wf(),
        phase.is_terminal(),
    ensures
        final(game).wf(),
        match claim_error(*old(game), phase, claimer, vault_lamports) {
            Some(e) => r == Err::<u64, CrapsError>(e) && *final(game) == *old(game),
            None => r == Ok::<u64, CrapsError>(claim_terms(*old(game), claimer).0 as u64)
                && claim_effect(*old(game), *final(game), claimer),
        },
{
    let ghost g0 = *game;
    if game.state != phase {
        return Err(CrapsError::InvalidState);
    }
    let settled = game.state == GameState::Settled;
    if keys_equal(&claimer, &game.shooter) {
        if game.shooter_claimed {
            return Err(CrapsError::AlreadyClaimed);
        }
        let amount = if settled { game.shooter_payout } else { game.shooter_stake };
        if amount == 0 {
            return Err(CrapsError::NothingToClaim);
        }
        if amount > vault_lamports {
            return Err(CrapsError::InsufficientVaultBalance);
        }
        game.shooter_claimed = true;
        return Ok(amount);
    }
    let idx = match game.find_fader_index(&claimer) {
        Some(i) => i,
        None => return Err(CrapsError::NotParticipant),
    };
    proof {
        let j = fader_slot(g0, claimer);
        assert(g0.faders@[idx as int].key == claimer);
        assert(j == idx as int);
    }
    let e = game.faders[idx];
    if e.claimed {
        return Err(CrapsError::AlreadyClaimed);
    }
    let amount = if settled { e.payout } else { e.stake };
    if amount == 0 {
        return Err(CrapsError::NothingToClaim);
    }
    if amount > vault_lamports {
        return Err(CrapsError::InsufficientVaultBalance);
    }
    game.faders.set(idx, FaderEntry { key: e.key, stake: e.stake, payout: e.payout, claimed: true });
    proof {
        assert(stakes_of(game.faders@) =~= stakes_of(g0.faders@));
        assert(crate::game::payouts_of(game.faders@) =~= crate::game::payouts_of(g0.faders@));
    }
    Ok(amount)
}

/// Pays a participant of a settled game: the shooter's payout or a fader's.
/// Returns the amount that the host moves from the game to the claimer.
pub fn claim_payout(game: &mut Game, claimer: [u8; 32], vault_lamports: u64) -> (r: Result<u64, CrapsError>)
    requires
        old(game).wf(),
    ensures
        final(game).wf(),
        match claim_error(*old(game), GameState::Settled, claimer, vault_lamports) {
            Some(e) => r == Err::<u64, CrapsError>(e) && *final(game) == *old(game),
            None => r == Ok::<u64, CrapsError>(claim_terms(*old(game), claimer).0 as u64)
                && claim_effect(*old(game), *final(game), claimer),
        },
{
    claim_entitlement(game, GameState::Settled, claimer, vault_lamports)
}

/// Refunds a participant of a canceled game its stake.
/// Returns the amount that the host moves from the game to the claimer.
pub fn withdraw_cancelled(game: &mut Game, claimer: [u8; 32], vault_lamports: u64) -> (r: Result<u64, CrapsError>)
    requires
        old(game).wf(),
    ensures
        final(game).wf(),
        match claim_error(*old(game), GameState::Canceled, claimer, vault_lamports) {
            Some(e) => r == Err::<u64, CrapsError>(e) && *final(game) == *old(game),
            None => r == Ok::<u64, CrapsError>(claim_terms(*old(game), claimer).0 as u64)
                && claim_effect(*old(game), *final(game), claimer),
        },
{
    claim_entitlement(game, GameState::Canceled, claimer, vault_lamports)
}

/// The first check that closing fails, if any.
pub open spec fn close_error(g: Game, signer: [u8; 32]) -> Option<CrapsError> {
    if signer != g.shooter {
        Some(CrapsError::Unauthorized)
    } else if g.closed {
        Some(CrapsError::AlreadyClosed)
    } else if !g.state.is_terminal() {
        Some(CrapsError::InvalidState)
    } else if !g.all_claimed() {
        Some(CrapsError::OutstandingClaims)
    } else {
        None
    }
}

/// The shooter closes a finished game once everyone owed has been paid; the
/// host then returns what is left in the game to the treasury.
pub fn close_game(game: &mut Game, signer: [u8; 32]) -> (r: Result<(), CrapsError>)
    requires
        old(game).wf(),
    ensures
        final(game).wf(),
        match close_error(*old(game), signer) {
            Some(e) => r == Err::<(), CrapsError>(e) && *final(game) == *old(game),
            None => r is Ok && *final(game) == (Game { closed: true, ..*old(game) }),
        },
{
    if !keys_equal(&signer, &game.shooter) {
        return Err(CrapsError::Unauthorized);
    }
    if game.closed {
        return Err(CrapsError::AlreadyClosed);
    }
    if !(game.state == GameState::Settled || game.state == GameState::Canceled) {
        return Err(CrapsError::InvalidState);
    }
    let settled = game.state == GameState::Settled;
    let shooter_owed = if settled { game.shooter_payout } else { game.shooter_stake };
    if shooter_owed > 0 && !game.shooter_claimed {
        return Err(CrapsError::OutstandingClaims);
    }
    let n = game.faders.len();
    let mut i: usize = 0;
    while i < n
        invariant
            n == game.faders@.len(),
            0 <= i <= n,
            *game == *old(game),
            game.wf(),
            signer == game.shooter,
            !game.closed,
            game.shooter_entitlement() > 0 ==> game.shooter_claimed,
            game.state.is_terminal(),
            settled == (game.state == GameState::Settled),
            forall|j: int| 0 <= j < i && game.fader_entitlement(j) > 0 ==> #[trigger] game.faders@[j].claimed,
        decreases n - i,
    {
        let e = game.faders[i];
        let owed = if settled { e.payout } else { e.stake };
        if owed > 0 && !e.claimed {
            return Err(CrapsError::OutstandingClaims);
        }
        i = i + 1;
    }
    game.closed = true;
    Ok(())
}

} // verus!
