//! The deployment configuration and the per-game record of the dice game,
//! with the invariants that every operation keeps.
use vstd::prelude::*;
use crate::keys::{is_null_key, is_zero_key, keys_equal};
use crate::sums::{lemma_seq_sum_push, seq_sum};
use crate::anchor_errors::error_code_offset;

verus! {

/// The largest fader table a deployment may configure.
pub const MAX_FADERS: usize = 16;

/// The highest tax a deployment may configure, in basis points.
pub const MAX_TAX_BPS: u16 = 2500;

/// Basis points in a whole.
pub const BPS_DENOMINATOR: u64 = 10000;

/// Deployment-wide parameters.
#[derive(Clone, Copy, Debug)]
pub struct Config {
    pub authority: [u8; 32],
    pub randomness_program: [u8; 32],
    pub randomness_authority: [u8; 32],
    pub treasury: [u8; 32],
    pub tax_bps: u16,
    pub max_faders: u8,
    pub frozen: bool,
    pub join_timeout_slots: u64,
    pub roll_timeout_slots: u64,
}

impl Config {
    /// The limits that creation and every update enforce.
    pub open spec fn wf(&self) -> bool {
        &&& self.tax_bps <= MAX_TAX_BPS
        &&& self.join_timeout_slots > 0
        &&& self.roll_timeout_slots > 0
        &&& 1 <= self.max_faders <= MAX_FADERS
    }
}

/// The phase of a game.
#[derive(Clone, Copy, Debug, PartialEq, Eq, Structural)]
pub enum GameState {
    Open,
    ReadyToRoll,
    Rolling,
    PointEstablished,
    Settled,
    Canceled,
}

impl GameState {
    pub open spec fn is_terminal(self) -> bool {
        self == GameState::Settled || self == GameState::Canceled
    }

    /// The phases from which the shooter may ask for a roll.
    pub open spec fn awaits_roll(self) -> bool {
        self == GameState::ReadyToRoll || self == GameState::PointEstablished
    }

    /// The phases in which faders may still join.
    pub open spec fn accepts_joins(self) -> bool {
        self == GameState::Open || self == GameState::ReadyToRoll
    }
}

/// One slot of the fader table.
#[derive(Clone, Copy, Debug)]
pub struct FaderEntry {
    pub key: [u8; 32],
    pub stake: u64,
    pub payout: u64,
    pub claimed: bool,
}

/// Everything that fails an operation of the dice game.
#[derive(Clone, Copy, Debug, PartialEq, Eq, Structural)]
pub enum CrapsError {
    Unauthorized,
    ConfigFrozen,
    InvalidState,
    InvalidStake,
    MathOverflow,
    TooManyFaders,
    AlreadyClaimed,
    NotParticipant,
    OutstandingClaims,
    AlreadyClosed,
    JoinTimeout,
    RollRequestTimeout,
    RollWindowActive,
    InvalidTaxBps,
    InvalidTimeout,
    InvalidMaxFaders,
    ShooterCannotFade,
    InvalidRandomnessProgram,
    MissingSigner,
    InvalidRollRequest,
    InsufficientVaultBalance,
    NothingToClaim,
}

impl CrapsError {
    /// The position of the variant in the declaration.
    pub open spec fn position(self) -> u32 {
        match self {
            CrapsError::Unauthorized => 0,
            CrapsError::ConfigFrozen => 1,
            CrapsError::InvalidState => 2,
            CrapsError::InvalidStake => 3,
            CrapsError::MathOverflow => 4,
            CrapsError::TooManyFaders => 5,
            CrapsError::AlreadyClaimed => 6,
            CrapsError::NotParticipant => 7,
            CrapsError::OutstandingClaims => 8,
            CrapsError::AlreadyClosed => 9,
            CrapsError::JoinTimeout => 10,
            CrapsError::RollRequestTimeout => 11,
            CrapsError::RollWindowActive => 12,
            CrapsError::InvalidTaxBps => 13,
            CrapsError::InvalidTimeout => 14,
            CrapsError::InvalidMaxFaders => 15,
            CrapsError::ShooterCannotFade => 16,
            CrapsError::InvalidRandomnessProgram => 17,
            CrapsError::MissingSigner => 18,
            CrapsError::InvalidRollRequest => 19,
            CrapsError::InsufficientVaultBalance => 20,
            CrapsError::NothingToClaim => 21,
        }
    }

    /// The error's code as the program reports it.
    pub fn error_code_number(&self) -> (r: u32)
        ensures
            r == 6000 + self.position(),
    {
        let position: u32 = match self {
            CrapsError::Unauthorized => 0,
            CrapsError::ConfigFrozen => 1,
            CrapsError::InvalidState => 2,
            CrapsError::InvalidStake => 3,
            CrapsError::MathOverflow => 4,
            CrapsError::TooManyFaders => 5,
            CrapsError::AlreadyClaimed => 6,
            CrapsError::NotParticipant => 7,
            CrapsError::OutstandingClaims => 8,
            CrapsError::AlreadyClosed => 9,
            CrapsError::JoinTimeout => 10,
            CrapsError::RollRequestTimeout => 11,
            CrapsError::RollWindowActive => 12,
            CrapsError::InvalidTaxBps => 13,
            CrapsError::InvalidTimeout => 14,
            CrapsError::InvalidMaxFaders => 15,
            CrapsError::ShooterCannotFade => 16,
            CrapsError::InvalidRandomnessProgram => 17,
            CrapsError::MissingSigner => 18,
            CrapsError::InvalidRollRequest => 19,
            CrapsError::InsufficientVaultBalance => 20,
            CrapsError::NothingToClaim => 21,
        };
        error_code_offset() + position
    }
}

/// The record of one game.
#[derive(Debug)]
pub struct Game {
    pub game_id: u64,
    pub config: [u8; 32],
    pub shooter: [u8; 32],
    pub state: GameState,
    pub shooter_stake: u64,
    pub total_fader_stake: u64,
    pub total_pot: u64,
    pub tax_amount: u64,
    pub point: u8,
    pub winner_is_shooter: bool,
    pub pending_roll_request: [u8; 32],
    pub last_roll_slot: u64,
    pub last_action_slot: u64,
    pub closed: bool,
    pub faders: Vec<FaderEntry>,
    pub shooter_payout: u64,
    pub shooter_claimed: bool,
}

/// The stakes of a fader table, in table order.
pub open spec fn stakes_of(faders: Seq<FaderEntry>) -> Seq<int> {
    faders.map_values(|f: FaderEntry| f.stake as int)
}

/// The payouts of a fader table, in table order.
pub open spec fn payouts_of(faders: Seq<FaderEntry>) -> Seq<int> {
    faders.map_values(|f: FaderEntry| f.payout as int)
}

/// The sums a point can take.
pub open spec fn is_point_value(p: u8) -> bool {
    p == 4 || p == 5 || p == 6 || p == 8 || p == 9 || p == 10
}

impl Game {
    pub open spec fn fader_count(&self) -> nat {
        self.faders@.len()
    }

    /// Whether `key` holds a slot of the fader table.
    pub open spec fn has_fader(&self, key: [u8; 32]) -> bool {
        exists|i: int| 0 <= i < self.faders@.len() && self.faders@[i].key == key
    }

    /// What the shooter is owed: the payout once settled, the stake once canceled.
    pub open spec fn shooter_entitlement(&self) -> int {
        if self.state == GameState::Settled {
            self.shooter_payout as int
        } else if self.state == GameState::Canceled {
            self.shooter_stake as int
        } else {
            0
        }
    }

    /// What the fader in slot `i` is owed: the payout once settled, the stake once canceled.
    pub open spec fn fader_entitlement(&self, i: int) -> int {
        if self.state == GameState::Settled {
            self.faders@[i].payout as int
        } else if self.state == GameState::Canceled {
            self.faders@[i].stake as int
        } else {
            0
        }
    }

    /// Whether every party with something owed has claimed it.
    pub open spec fn all_claimed(&self) -> bool {
        &&& (self.shooter_entitlement() > 0 ==> self.shooter_claimed)
        &&& forall|i: int|
            0 <= i < self.faders@.len() && self.fader_entitlement(i) > 0
                ==> #[trigger] self.faders@[i].claimed
    }

    /// Payouts plus tax account for the whole pot.
    pub open spec fn conserves_pot(&self) -> bool {
        seq_sum(payouts_of(self.faders@)) + self.shooter_payout + self.tax_amount
            == self.total_pot
    }

    /// The invariant of a game record.
    pub open spec fn wf(&self) -> bool {
        &&& self.faders@.len() <= MAX_FADERS
        &&& self.shooter_stake > 0
        &&& self.total_fader_stake == seq_sum(stakes_of(self.faders@))
        &&& self.total_pot == self.shooter_stake + self.total_fader_stake
        &&& forall|i: int| 0 <= i < self.faders@.len() ==> #[trigger] self.faders@[i].stake > 0
        &&& forall|i: int, j: int|
            0 <= i < j < self.faders@.len() ==> self.faders@[i].key != self.faders@[j].key
        &&& forall|i: int| 0 <= i < self.faders@.len() ==> #[trigger] self.faders@[i].key != self.shooter
        &&& (self.state == GameState::Open ==> self.faders@.len() == 0)
        &&& (is_null_key(self.pending_roll_request) <==> self.state != GameState::Rolling)
        &&& (self.point == 0 || is_point_value(self.point))
        &&& (self.state == GameState::PointEstablished ==> self.point != 0)
        &&& (self.state.accepts_joins() ==> self.point == 0)
        &&& (self.state == GameState::Settled ==> self.conserves_pot())
        &&& (self.closed ==> self.state.is_terminal() && self.all_claimed())
    }
}

proof fn lemma_prefix_push(s: Seq<FaderEntry>, i: int)
    requires
        0 <= i < s.len(),
    ensures
        stakes_of(s.take(i + 1)) == stakes_of(s.take(i)).push(s[i].stake as int),
        payouts_of(s.take(i + 1)) == payouts_of(s.take(i)).push(s[i].payout as int),
        seq_sum(stakes_of(s.take(i + 1))) == seq_sum(stakes_of(s.take(i))) + s[i].stake,
        seq_sum(payouts_of(s.take(i + 1))) == seq_sum(payouts_of(s.take(i))) + s[i].payout,
{
    assert(stakes_of(s.take(i + 1)) =~= stakes_of(s.take(i)).push(s[i].stake as int));
    assert(payouts_of(s.take(i + 1)) =~= payouts_of(s.take(i)).push(s[i].payout as int));
    lemma_seq_sum_push(stakes_of(s.take(i)), s[i].stake as int);
    lemma_seq_sum_push(payouts_of(s.take(i)), s[i].payout as int);
}

impl Game {
    fn fader_sums(&self) -> (r: (u128, u128))
        requires
            self.faders@.len() <= MAX_FADERS,
        ensures
            r.0 == seq_sum(stakes_of(self.faders@)),
            r.1 == seq_sum(payouts_of(self.faders@)),
            r.1 <= 16 * 0x1_0000_0000_0000_0000,
    {
        let n = self.faders.len();
        let mut stakes: u128 = 0;
        let mut payouts: u128 = 0;
        let mut i: usize = 0;
        while i < n
            invariant
                n == self.faders@.len(),
                n <= MAX_FADERS,
                0 <= i <= n,
                stakes == seq_sum(stakes_of(self.faders@.take(i as int))),
                payouts == seq_sum(payouts_of(self.faders@.take(i as int))),
                stakes <= i * 0x1_0000_0000_0000_0000,
                payouts <= i * 0x1_0000_0000_0000_0000,
            decreases n - i,
        {
            proof {
                lemma_prefix_push(self.faders@, i as int);
            }
            stakes = stakes + self.faders[i].stake as u128;
            payouts = payouts + self.faders[i].payout as u128;
            i = i + 1;
        }
        proof {
            assert(self.faders@.take(n as int) =~= self.faders@);
        }
        (stakes, payouts)
    }

    fn faders_well_formed(&self) -> (r: bool)
        ensures
            r == ((forall|i: int| 0 <= i < self.faders@.len() ==> #[trigger] self.faders@[i].stake > 0)
                && (forall|i: int, j: int|
                    0 <= i < j < self.faders@.len() ==> self.faders@[i].key != self.faders@[j].key)
                && (forall|i: int| 0 <= i < self.faders@.len() ==> #[trigger] self.faders@[i].key != self.shooter)),
    {
        let n = self.faders.len();
        let mut i: usize = 0;
        while i < n
            invariant
                n == self.faders@.len(),
                0 <= i <= n,
                forall|k: int| 0 <= k < i ==> #[trigger] self.faders@[k].stake > 0,
                forall|k: int| 0 <= k < i ==> #[trigger] self.faders@[k].key != self.shooter,
                forall|k: int, j: int| 0 <= k < j < n && k < i ==> self.faders@[k].key != self.faders@[j].key,
            decreases n - i,
        {
            let e = self.faders[i];
            if e.stake == 0 || keys_equal(&e.key, &self.shooter) {
                return false;
            }
            let mut j: usize = i + 1;
            while j < n
                invariant
                    n == self.faders@.len(),
                    i < n,
                    e == self.faders@[i as int],
                    i + 1 <= j <= n,
                    forall|m: int| i < m < j ==> self.faders@[i as int].key != #[trigger] self.faders@[m].key,
                decreases n - j,
            {
                if keys_equal(&e.key, &self.faders[j].key) {
                    return false;
                }
                j = j + 1;
            }
            i = i + 1;
        }
        true
    }

    fn all_claimed_check(&self) -> (r: bool)
        ensures
            r == self.all_claimed(),
    {
        let settled = self.state == GameState::Settled;
        let canceled = self.state == GameState::Canceled;
        let shooter_owed: u64 = if settled {
            self.shooter_payout
        } else if canceled {
            self.shooter_stake
        } else {
            0
        };
        if shooter_owed > 0 && !self.shooter_claimed {
            return false;
        }
        let n = self.faders.len();
        let mut i: usize = 0;
        while i < n
            invariant
                n == self.faders@.len(),
                0 <= i <= n,
                settled == (self.state == GameState::Settled),
                canceled == (self.state == GameState::Canceled),
                forall|j: int| 0 <= j < i && self.fader_entitlement(j) > 0 ==> #[trigger] self.faders@[j].claimed,
            decreases n - i,
        {
            let e = self.faders[i];
            let owed: u64 = if settled {
                e.payout
            } else if canceled {
                e.stake
            } else {
                0
            };
            if owed > 0 && !e.claimed {
                assert(self.fader_entitlement(i as int) > 0);
                return false;
            }
            i = i + 1;
        }
        true
    }

    /// Whether the record keeps the invariant; a host checks this of a record
    /// it reads back from storage before handing it to an operation.
    pub fn is_well_formed(&self) -> (r: bool)
        ensures
            r == self.wf(),
    {
        if self.faders.len() > MAX_FADERS || self.shooter_stake == 0 {
            return false;
        }
        let (stakes, payouts) = self.fader_sums();
        if stakes != self.total_fader_stake as u128 {
            return false;
        }
        if self.total_pot as u128 != self.shooter_stake as u128 + self.total_fader_stake as u128 {
            return false;
        }
        if !self.faders_well_formed() {
            return false;
        }
        if self.state == GameState::Open && self.faders.len() != 0 {
            return false;
        }
        if is_zero_key(&self.pending_roll_request) != (self.state != GameState::Rolling) {
            return false;
        }
        let p = self.point;
        if !(p == 0 || p == 4 || p == 5 || p == 6 || p == 8 || p == 9 || p == 10) {
            return false;
        }
        if self.state == GameState::PointEstablished && p == 0 {
            return false;
        }
        if (self.state == GameState::Open || self.state == GameState::ReadyToRoll) && p != 0 {
            return false;
        }
        if self.state == GameState::Settled
            && payouts + self.shooter_payout as u128 + self.tax_amount as u128 != self.total_pot as u128 {
            return false;
        }
        if self.closed && !((self.state == GameState::Settled || self.state == GameState::Canceled)
            && self.all_claimed_check()) {
            return false;
        }
        true
    }
}

} // verus!
