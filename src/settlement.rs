//! Settlement: the tax on the pot and the payout table of a resolved game.
use vstd::prelude::*;
use crate::game::{payouts_of, stakes_of, Config, CrapsError, FaderEntry, Game, GameState, BPS_DENOMINATOR};
use crate::sums::{lemma_seq_sum_concat, lemma_seq_sum_positive, lemma_seq_sum_update, lemma_seq_sum_zeros, lemma_seq_sum_nonneg, lemma_seq_sum_push, seq_sum};

verus! {

/// The tax taken from a pot, rounded down.
pub open spec fn tax_for(pot: int, bps: int) -> int {
    pot * bps / 10000
}

/// A fader's proportional share of what is distributed, rounded down.
pub open spec fn fader_share(distributable: int, stake: int, total_stake: int) -> int {
    distributable * stake / total_stake
}

/// The rounded-down shares of a fader table, in table order.
pub open spec fn shares_of(faders: Seq<FaderEntry>, distributable: int, total_stake: int) -> Seq<int> {
    faders.map_values(|f: FaderEntry| fader_share(distributable, f.stake as int, total_stake))
}

/// The payout of slot `i` when the shooter loses: its share, and for the
/// first slot also whatever the rounding left over.
pub open spec fn losing_payout(faders: Seq<FaderEntry>, i: int, distributable: int, total_stake: int) -> int {
    fader_share(distributable, faders[i].stake as int, total_stake) + if i == 0 {
        distributable - seq_sum(shares_of(faders, distributable, total_stake))
    } else {
        0
    }
}

/// Whether settling `g` at `bps` overflows 64 bits somewhere.
pub open spec fn settlement_overflows(g: Game, bps: u16, shooter_wins: bool) -> bool {
    let tax = tax_for(g.total_pot as int, bps as int);
    ||| g.total_pot * bps > u64::MAX
    ||| tax > g.total_pot
    ||| (!shooter_wins && g.total_fader_stake > 0 && exists|i: int|
        0 <= i < g.faders@.len() && (g.total_pot - tax) * #[trigger] g.faders@[i].stake > u64::MAX)
}

/// Slot `b` is slot `a` with at most its payout changed.
pub open spec fn same_slot(a: FaderEntry, b: FaderEntry) -> bool {
    a.key == b.key && a.stake == b.stake && a.claimed == b.claimed
}

/// `new` is `old` settled at `bps` with the given winner.
pub open spec fn is_settlement_of(old: Game, new: Game, bps: u16, shooter_wins: bool) -> bool {
    let tax = tax_for(old.total_pot as int, bps as int);
    let distributable = old.total_pot - tax;
    let n = old.faders@.len();
    &&& new.state == GameState::Settled
    &&& new.tax_amount == tax
    &&& new.winner_is_shooter == shooter_wins
    &&& new.faders@.len() == n
    &&& forall|i: int| 0 <= i < n ==> same_slot(#[trigger] new.faders@[i], old.faders@[i])
    &&& if shooter_wins {
        &&& new.shooter_payout == distributable
        &&& forall|i: int| 0 <= i < n ==> #[trigger] new.faders@[i].payout == 0
    } else if old.total_fader_stake == 0 {
        &&& new.shooter_payout == distributable
        &&& forall|i: int| 0 <= i < n ==> #[trigger] new.faders@[i].payout == old.faders@[i].payout
    } else {
        &&& new.shooter_payout == 0
        &&& forall|i: int| 0 <= i < n ==> #[trigger] new.faders@[i].payout
            == losing_payout(old.faders@, i, distributable, old.total_fader_stake as int)
    }
    &&& new.game_id == old.game_id
    &&& new.config == old.config
    &&& new.shooter == old.shooter
    &&& new.shooter_stake == old.shooter_stake
    &&& new.total_fader_stake == old.total_fader_stake
    &&& new.total_pot == old.total_pot
    &&& new.point == old.point
    &&& new.pending_roll_request == old.pending_roll_request
    &&& new.last_roll_slot == old.last_roll_slot
    &&& new.last_action_slot == old.last_action_slot
    &&& new.closed == old.closed
    &&& new.shooter_claimed == old.shooter_claimed
}

proof fn lemma_share_bound(d: int, s: int, t: int)
    requires
        d >= 0,
        s >= 0,
        t > 0,
    ensures
        0 <= fader_share(d, s, t),
        t * fader_share(d, s, t) <= d * s,
{
    assert(0 <= d * s) by (nonlinear_arith)
        requires
            d >= 0,
            s >= 0,
    ;
    vstd::arithmetic::div_mod::lemma_fundamental_div_mod(d * s, t);
    vstd::arithmetic::div_mod::lemma_div_pos_is_pos(d * s, t);
    assert(t * ((d * s) / t) <= d * s) by {
        vstd::arithmetic::div_mod::lemma_mod_pos_bound(d * s, t);
    }
}

proof fn lemma_allocated_bound(alloc: int, d: int, partial: int, t: int)
    requires
        t * alloc <= d * partial,
        0 <= partial <= t,
        t > 0,
        d >= 0,
    ensures
        alloc <= d,
{
    assert(d * partial <= d * t) by (nonlinear_arith)
        requires
            0 <= partial <= t,
            d >= 0,
    ;
    assert(alloc <= d) by (nonlinear_arith)
        requires
            t * alloc <= d * t,
            t > 0,
    ;
}

/// Settles `game`: takes the tax and fills in the payouts, or fails with
/// `MathOverflow`, leaving the game as it was.
pub(crate) fn settle_game(game: &mut Game, config: &Config, shooter_wins: bool) -> (r: Result<(), CrapsError>)
    requires
        old(game).wf(),
    ensures
        r is Err ==> *final(game) == *old(game) && r == Err::<(), CrapsError>(CrapsError::MathOverflow),
        r is Err <==> settlement_overflows(*old(game), config.tax_bps, shooter_wins),
        r is Ok ==> is_settlement_of(*old(game), *final(game), config.tax_bps, shooter_wins),
{
    let ghost g0 = *game;
    let tax_product = match game.total_pot.checked_mul(config.tax_bps as u64) {
        Some(v) => v,
        None => return Err(CrapsError::MathOverflow),
    };
    let tax = tax_product / BPS_DENOMINATOR;
    assert(tax == tax_for(game.total_pot as int, config.tax_bps as int));
    if tax > game.total_pot {
        return Err(CrapsError::MathOverflow);
    }
    let distributable = game.total_pot - tax;
    let n = game.faders.len();
    if shooter_wins {
        let mut updated: Vec<FaderEntry> = Vec::new();
        let mut i: usize = 0;
        while i < n
            invariant
                n == g0.faders@.len(),
                *game == g0,
                0 <= i <= n,
                updated@.len() == i,
                forall|j: int| 0 <= j < i ==> same_slot(#[trigger] updated@[j], g0.faders@[j]),
                forall|j: int| 0 <= j < i ==> #[trigger] updated@[j].payout == 0,
            decreases n - i,
        {
            let f = game.faders[i];
            updated.push(FaderEntry { key: f.key, stake: f.stake, payout: 0, claimed: f.claimed });
            i = i + 1;
        }
        game.tax_amount = tax;
        game.winner_is_shooter = true;
        game.state = GameState::Settled;
        game.shooter_payout = distributable;
        game.faders = updated;
        return Ok(());
    }
    let total = game.total_fader_stake;
    if total == 0 {
        game.tax_amount = tax;
        game.winner_is_shooter = false;
        game.state = GameState::Settled;
        game.shooter_payout = distributable;
        return Ok(());
    }
    let ghost d = distributable as int;
    let ghost t = total as int;
    proof {
        lemma_seq_sum_nonneg(stakes_of(g0.faders@));
    }
    let mut updated: Vec<FaderEntry> = Vec::new();
    let mut allocated: u64 = 0;
    let mut i: usize = 0;
    while i < n
        invariant
            n == g0.faders@.len(),
            *game == g0,
            g0 == *old(game),
            g0.wf(),
            d == distributable,
            d == g0.total_pot - tax_for(g0.total_pot as int, config.tax_bps as int),
            !shooter_wins,
            t == total,
            t == g0.total_fader_stake,
            t > 0,
            d >= 0,
            0 <= i <= n,
            updated@.len() == i,
            forall|j: int| 0 <= j < i ==> same_slot(#[trigger] updated@[j], g0.faders@[j]),
            forall|j: int| 0 <= j < i ==> #[trigger] updated@[j].payout
                == fader_share(d, g0.faders@[j].stake as int, t),
            forall|j: int| 0 <= j < i ==> d * (#[trigger] g0.faders@[j].stake) <= u64::MAX,
            allocated == seq_sum(shares_of(g0.faders@.take(i as int), d, t)),
            t * allocated <= d * seq_sum(stakes_of(g0.faders@.take(i as int))),
            0 <= seq_sum(stakes_of(g0.faders@.take(i as int))) <= t,
        decreases n - i,
    {
        let f = game.faders[i];
        let share = match distributable.checked_mul(f.stake) {
            Some(v) => v / total,
            None => {
                assert(settlement_overflows(g0, config.tax_bps, shooter_wins)) by {
                    assert(g0.faders@[i as int].stake == f.stake);
                    assert((g0.total_pot - tax_for(g0.total_pot as int, config.tax_bps as int))
                        * g0.faders@[i as int].stake > u64::MAX);
                }
                return Err(CrapsError::MathOverflow);
            },
        };
        proof {
            let prefix = g0.faders@.take(i as int);
            let next = g0.faders@.take(i as int + 1);
            assert(next =~= prefix.push(f));
            assert(stakes_of(next) =~= stakes_of(prefix).push(f.stake as int));
            assert(shares_of(next, d, t) =~= shares_of(prefix, d, t).push(fader_share(d, f.stake as int, t)));
            lemma_seq_sum_push(stakes_of(prefix), f.stake as int);
            lemma_seq_sum_push(shares_of(prefix, d, t), fader_share(d, f.stake as int, t));
            lemma_share_bound(d, f.stake as int, t);
            assert(g0.faders@.take(n as int) =~= g0.faders@);
            assert forall|k: int| 0 <= k < i as int + 1 implies stakes_of(next)[k] >= 0 by {}
            lemma_seq_sum_nonneg(stakes_of(next));
            assert(seq_sum(stakes_of(next)) <= t) by {
                let rest = g0.faders@.subrange(i as int + 1, n as int);
                assert(g0.faders@ =~= next + rest);
                assert(stakes_of(g0.faders@) =~= stakes_of(next) + stakes_of(rest));
                lemma_seq_sum_concat(stakes_of(next), stakes_of(rest));
                assert forall|k: int| 0 <= k < stakes_of(rest).len() implies stakes_of(rest)[k] >= 0 by {}
                lemma_seq_sum_nonneg(stakes_of(rest));
            }
            let s_prev = seq_sum(stakes_of(prefix));
            let a_prev = allocated as int;
            let sh = share as int;
            let st = f.stake as int;
            assert(t * (a_prev + sh) <= d * (s_prev + st)) by (nonlinear_arith)
                requires
                    t * a_prev <= d * s_prev,
                    t * sh <= d * st,
            ;
            lemma_allocated_bound(allocated + share, d, seq_sum(stakes_of(next)), t);
        }
        allocated = allocated + share;
        updated.push(FaderEntry { key: f.key, stake: f.stake, payout: share, claimed: f.claimed });
        i = i + 1;
    }
    proof {
        assert(g0.faders@.take(n as int) =~= g0.faders@);
        lemma_allocated_bound(allocated as int, d, seq_sum(stakes_of(g0.faders@)), t);
        if n > 0 {
            assert forall|k: int| 0 <= k < n implies shares_of(g0.faders@, d, t)[k] >= 0 by {
                lemma_share_bound(d, g0.faders@[k].stake as int, t);
            }
            lemma_seq_sum_nonneg(shares_of(g0.faders@, d, t));
            assert(updated@[0].payout == shares_of(g0.faders@, d, t)[0]);
        }
    }
    let remainder = distributable - allocated;
    if n > 0 {
        let first = updated[0];
        updated.set(0, FaderEntry { key: first.key, stake: first.stake, payout: first.payout + remainder, claimed: first.claimed });
    }
    game.tax_amount = tax;
    game.winner_is_shooter = false;
    game.state = GameState::Settled;
    game.shooter_payout = 0;
    game.faders = updated;
    Ok(())
}

/// Settlement conserves the pot: whoever wins, and however the stakes are
/// spread, the fader payouts, the shooter's payout and the tax add up to
/// exactly the pot.
pub proof fn lemma_settlement_conserves_pot(old: Game, new: Game, bps: u16, shooter_wins: bool)
    requires
        old.wf(),
        is_settlement_of(old, new, bps, shooter_wins),
    ensures
        new.conserves_pot(),
{
    let n = old.faders@.len();
    let tax = tax_for(old.total_pot as int, bps as int);
    let d = old.total_pot - tax;
    let t = old.total_fader_stake as int;
    if shooter_wins {
        assert forall|i: int| 0 <= i < n implies payouts_of(new.faders@)[i] == 0 by {
            assert(new.faders@[i].payout == 0);
        }
        lemma_seq_sum_zeros(payouts_of(new.faders@));
    } else if t == 0 {
        if n > 0 {
            assert forall|i: int| 0 <= i < n implies stakes_of(old.faders@)[i] > 0 by {
                assert(old.faders@[i].stake > 0);
            }
            lemma_seq_sum_positive(stakes_of(old.faders@));
        }
        lemma_seq_sum_zeros(payouts_of(new.faders@));
    } else {
        if n == 0 {
            assert(stakes_of(old.faders@) =~= Seq::<int>::empty());
        }
        let shares = shares_of(old.faders@, d, t);
        let total_shares = seq_sum(shares);
        assert(payouts_of(new.faders@) =~= shares.update(0, shares[0] + d - total_shares)) by {
            assert forall|i: int| 0 <= i < n implies payouts_of(new.faders@)[i]
                == shares.update(0, shares[0] + d - total_shares)[i] by {
                assert(new.faders@[i].payout == losing_payout(old.faders@, i, d, t));
            }
        }
        lemma_seq_sum_update(shares, 0, shares[0] + d - total_shares);
    }
}

} // verus!
