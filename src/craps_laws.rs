//! Properties of the dice game that relate several operations or hold of
//! every input, each proved from the operations' own contracts.
use vstd::prelude::*;
use crate::game::{Config, CrapsError, Game, GameState, MAX_FADERS};
use crate::keys::is_null_key;
use crate::street_craps::{
    callback_effect, callback_error, callback_outcome, claim_effect, claim_error, claim_terms, dice_of, fader_slot, join_error,
    request_roll_error, RollOutcome,
};

verus! {

/// Claims pay once: after a claim succeeds, the same claimer's next claim
/// fails as already claimed, whatever the game then holds in its vault.
pub proof fn lemma_claim_pays_once(
    before: Game,
    after: Game,
    phase: GameState,
    claimer: [u8; 32],
    vault_before: u64,
    vault_after: u64,
)
    requires
        before.wf(),
        claim_error(before, phase, claimer, vault_before) is None,
        claim_effect(before, after, claimer),
    ensures
        claim_error(after, phase, claimer, vault_after) == Some(CrapsError::AlreadyClaimed),
{
    if claimer != before.shooter {
        let i = fader_slot(before, claimer);
        assert(before.faders@[i].key == claimer);
        assert(after.faders@[i].key == claimer);
        assert(after.has_fader(claimer));
        let j = fader_slot(after, claimer);
        assert(after.faders@[j].key == claimer);
        assert(before.faders@[j].key == claimer) by {
            if j != i {
                assert(after.faders@[j] == before.faders@[j]);
            }
        }
        assert(i == j);
        assert(claim_terms(after, claimer).1);
    }
}

/// The join window: with every other check passing, a join at `slot`
/// succeeds exactly when `slot` is at most the last action's slot plus the
/// join timeout, and otherwise fails with `JoinTimeout`.
pub proof fn lemma_join_window(g: Game, config: Config, fader: [u8; 32], fader_stake: u64, slot: u64)
    requires
        !config.frozen,
        g.state.accepts_joins(),
        fader != g.shooter,
        fader_stake > 0,
        g.faders@.len() < config.max_faders,
        g.faders@.len() < MAX_FADERS,
        g.total_pot + fader_stake <= u64::MAX,
    ensures
        join_error(g, config, fader, fader_stake, slot) is None
            <==> slot <= g.last_action_slot + config.join_timeout_slots,
        slot > g.last_action_slot + config.join_timeout_slots
            ==> join_error(g, config, fader, fader_stake, slot) == Some(CrapsError::JoinTimeout),
{
}

/// One roll at a time: while a request is pending, asking for another roll
/// fails; with none pending and every other check passing, it succeeds.
pub proof fn lemma_single_pending_request(g: Game, config: Config, signer: [u8; 32], roll_request: [u8; 32], slot: u64)
    requires
        g.wf(),
    ensures
        !is_null_key(g.pending_roll_request) ==> request_roll_error(g, config, signer, roll_request, slot) is Some,
        is_null_key(g.pending_roll_request) && !config.frozen && signer == g.shooter && g.state.awaits_roll()
            && !is_null_key(roll_request) && slot <= g.last_action_slot + config.roll_timeout_slots
            ==> request_roll_error(g, config, signer, roll_request, slot) is None,
{
}

/// An entropy word that is a multiple of six, whose sixth is too, rolls two
/// ones; on a first roll that is a loss for the shooter.
pub proof fn lemma_snake_eyes(g: Game, random_word: u64)
    requires
        random_word % 6 == 0,
        (random_word / 6) % 6 == 0,
        g.point == 0,
    ensures
        dice_of(random_word) == (1int, 1int),
        callback_outcome(g, random_word) == RollOutcome::ShooterLoses,
{
}

/// Deliveries are single-use: once a delivery has been accepted, the same
/// delivery arriving again is refused, so a delayed duplicate cannot roll twice.
pub proof fn lemma_delivery_single_use(
    before: Game,
    after: Game,
    config: Config,
    randomness_program: [u8; 32],
    program_executable: bool,
    randomness_authority: [u8; 32],
    authority_is_signer: bool,
    roll_request: [u8; 32],
    random_word: u64,
    slot: u64,
    later_word: u64,
)
    requires
        before.wf(),
        callback_error(before, config, randomness_program, program_executable, randomness_authority,
            authority_is_signer, roll_request, random_word) is None,
        callback_effect(before, after, config.tax_bps, random_word, slot),
    ensures
        callback_error(after, config, randomness_program, program_executable, randomness_authority,
            authority_is_signer, roll_request, later_word) is Some,
{
}

} // verus!
