//! The records of the contribution-round pot: one per contributor, the
//! current round's totals, and the account holding both.
use vstd::prelude::*;
use crate::keys::{is_null_key, null_key};

verus! {

/// The number of contributor slots of an account.
pub const MAX_CONTRIBUTORS: usize = 64;

/// One contributor slot.
#[derive(Clone, Copy, Debug, PartialEq, Eq)]
pub struct ContributorRecord {
    pub contributor: [u8; 32],
    pub total_contributed_lamports: u64,
    pub claimable_lamports: u64,
    pub claimed_lamports: u64,
    pub is_initialized: bool,
    pub has_claimed_current_round: bool,
}

impl ContributorRecord {
    /// An unused slot: zero key, zero amounts, no flags.
    pub open spec fn is_empty_slot(self) -> bool {
        &&& is_null_key(self.contributor)
        &&& self.total_contributed_lamports == 0
        &&& self.claimable_lamports == 0
        &&& self.claimed_lamports == 0
        &&& !self.is_initialized
        &&& !self.has_claimed_current_round
    }

    /// An unused slot.
    pub fn empty() -> (r: Self)
        ensures
            r.is_empty_slot(),
    {
        Self {
            contributor: null_key(),
            total_contributed_lamports: 0,
            claimable_lamports: 0,
            claimed_lamports: 0,
            is_initialized: false,
            has_claimed_current_round: false,
        }
    }
}

/// The totals of one round.
#[derive(Clone, Copy, Debug, PartialEq, Eq)]
pub struct RoundState {
    pub round_id: u64,
    pub is_closed: bool,
    pub total_round_contributions: u64,
    pub total_round_claimable: u64,
    pub total_round_claimed: u64,
    pub owner_withdrawable_lamports: u64,
    pub owner_has_withdrawn: bool,
}

impl RoundState {
    /// A fresh open round with nothing in it.
    pub open spec fn is_fresh(self, round_id: u64) -> bool {
        self == RoundState {
            round_id,
            is_closed: false,
            total_round_contributions: 0,
            total_round_claimable: 0,
            total_round_claimed: 0,
            owner_withdrawable_lamports: 0,
            owner_has_withdrawn: false,
        }
    }

    /// A fresh open round numbered `round_id`.
    pub fn new(round_id: u64) -> (r: Self)
        ensures
            r.is_fresh(round_id),
    {
        Self {
            round_id,
            is_closed: false,
            total_round_contributions: 0,
            total_round_claimable: 0,
            total_round_claimed: 0,
            owner_withdrawable_lamports: 0,
            owner_has_withdrawn: false,
        }
    }
}

/// The pot: its owner, the owner's cut, the current round and the contributor table.
#[derive(Clone, Debug, PartialEq, Eq)]
pub struct WordGameAccount {
    pub owner: [u8; 32],
    pub treasury_bps: u16,
    pub current_round: RoundState,
    pub contributors: Vec<ContributorRecord>,
}

impl WordGameAccount {
    /// An account with round one open and every contributor slot unused.
    pub fn new(owner: [u8; 32], treasury_bps: u16) -> (r: Self)
        ensures
            r.owner == owner,
            r.treasury_bps == treasury_bps,
            r.current_round.is_fresh(1),
            r.contributors@.len() == MAX_CONTRIBUTORS,
            forall|i: int| 0 <= i < MAX_CONTRIBUTORS ==> (#[trigger] r.contributors@[i]).is_empty_slot(),
    {
        let mut contributors: Vec<ContributorRecord> = Vec::new();
        let mut i: usize = 0;
        while i < MAX_CONTRIBUTORS
            invariant
                0 <= i <= MAX_CONTRIBUTORS,
                contributors@.len() == i,
                forall|j: int| 0 <= j < i ==> (#[trigger] contributors@[j]).is_empty_slot(),
            decreases MAX_CONTRIBUTORS - i,
        {
            contributors.push(ContributorRecord::empty());
            i = i + 1;
        }
        Self { owner, treasury_bps, current_round: RoundState::new(1), contributors }
    }
}

} // verus!
