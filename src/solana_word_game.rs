//! The contribution-round pot: contributors pay in while a round is open;
//! closing the round sets aside the owner's cut and makes each contributor's
//! remaining share claimable; a reset opens the next round.
use vstd::prelude::*;
use vstd::slice::SliceAdditionalExecFns;
use crate::types::{ContributorRecord, RoundState, WordGameAccount, MAX_CONTRIBUTORS};

verus! {

/// Everything that fails an operation of the pot.
#[derive(Clone, Copy, Debug, PartialEq, Eq, Structural)]
pub enum ProgramError {
    InvalidTreasuryBps,
    RoundAlreadyClosed,
    RoundStillOpen,
    ContributorNotFound,
    ContributorTableFull,
    InvalidAmount,
    DoubleClaim,
    DoubleWithdraw,
    MathOverflow,
}

pub type ProgramResult<T> = Result<T, ProgramError>;

/// Basis points in a whole.
pub const BPS_WHOLE: u16 = 10000;

/// Creates a pot whose owner takes `treasury_bps` of each round.
pub fn initialize(owner: [u8; 32], treasury_bps: u16) -> (r: ProgramResult<WordGameAccount>)
    ensures
        treasury_bps > BPS_WHOLE ==> r == Err::<WordGameAccount, ProgramError>(ProgramError::InvalidTreasuryBps),
        treasury_bps <= BPS_WHOLE ==> r is Ok,
        r matches Ok(a) ==> {
            &&& a.owner == owner
            &&& a.treasury_bps == treasury_bps
            &&& a.current_round.is_fresh(1)
            &&& a.contributors@.len() == MAX_CONTRIBUTORS
            &&& forall|i: int| 0 <= i < MAX_CONTRIBUTORS ==> (#[trigger] a.contributors@[i]).is_empty_slot()
        },
{
    if treasury_bps > BPS_WHOLE {
        return Err(ProgramError::InvalidTreasuryBps);
    }
    Ok(WordGameAccount::new(owner, treasury_bps))
}

/// Whether slot `r` belongs to `contributor`.
pub open spec fn holds_key(r: ContributorRecord, contributor: [u8; 32]) -> bool {
    r.is_initialized && r.contributor == contributor
}

/// Whether some slot belongs to `contributor`.
pub open spec fn is_registered(s: Seq<ContributorRecord>, contributor: [u8; 32]) -> bool {
    exists|i: int| 0 <= i < s.len() && holds_key(#[trigger] s[i], contributor)
}

/// The first slot that belongs to `contributor`.
pub open spec fn slot_of(s: Seq<ContributorRecord>, contributor: [u8; 32]) -> int {
    choose|i: int| 0 <= i < s.len() && holds_key(s[i], contributor)
        && forall|j: int| 0 <= j < i ==> !holds_key(#[trigger] s[j], contributor)
}

/// Whether some slot is unused.
pub open spec fn has_free_slot(s: Seq<ContributorRecord>) -> bool {
    exists|i: int| 0 <= i < s.len() && !(#[trigger] s[i]).is_initialized
}

/// The first unused slot.
pub open spec fn first_free_slot(s: Seq<ContributorRecord>) -> int {
    choose|i: int| 0 <= i < s.len() && !s[i].is_initialized
        && forall|j: int| 0 <= j < i ==> (#[trigger] s[j]).is_initialized
}

proof fn lemma_first_is_unique(s: Seq<ContributorRecord>, contributor: [u8; 32], i: int)
    requires
        0 <= i < s.len(),
        holds_key(s[i], contributor),
        forall|j: int| 0 <= j < i ==> !holds_key(#[trigger] s[j], contributor),
    ensures
        slot_of(s, contributor) == i,
{
    let k = slot_of(s, contributor);
    assert(0 <= k < s.len() && holds_key(s[k], contributor)
        && forall|j: int| 0 <= j < k ==> !holds_key(#[trigger] s[j], contributor));
    if k < i {
        assert(!holds_key(s[k], contributor));
    }
    if i < k {
        assert(!holds_key(s[i], contributor));
    }
}

proof fn lemma_first_free_is_unique(s: Seq<ContributorRecord>, i: int)
    requires
        0 <= i < s.len(),
        !s[i].is_initialized,
        forall|j: int| 0 <= j < i ==> (#[trigger] s[j]).is_initialized,
    ensures
        first_free_slot(s) == i,
{
    let k = first_free_slot(s);
    assert(0 <= k < s.len() && !s[k].is_initialized
        && forall|j: int| 0 <= j < k ==> (#[trigger] s[j]).is_initialized);
    if k < i {
        assert(s[k].is_initialized);
    }
    if i < k {
        assert(s[i].is_initialized);
    }
}

/// The first slot that belongs to `contributor`, if any.
pub fn find_contributor_slot(contributors: &[ContributorRecord], contributor: [u8; 32]) -> (r: Option<usize>)
    ensures
        r is None <==> !is_registered(contributors@, contributor),
        r matches Some(i) ==> i < contributors@.len() && i == slot_of(contributors@, contributor),
{
    let n = contributors.len();
    let mut i: usize = 0;
    while i < n
        invariant
            n == contributors@.len(),
            0 <= i <= n,
            forall|j: int| 0 <= j < i ==> !holds_key(#[trigger] contributors@[j], contributor),
        decreases n - i,
    {
        let r = contributors[i];
        if r.is_initialized && crate::keys::keys_equal(&r.contributor, &contributor) {
            proof {
                lemma_first_is_unique(contributors@, contributor, i as int);
            }
            return Some(i);
        }
        i = i + 1;
    }
    None
}

/// The slot that a contribution by `contributor` goes to: its own, else the
/// first unused one, if that lies within the table's bound.
pub open spec fn target_slot(s: Seq<ContributorRecord>, contributor: [u8; 32]) -> Option<int> {
    if is_registered(s, contributor) {
        Some(slot_of(s, contributor))
    } else if has_free_slot(s) && first_free_slot(s) < MAX_CONTRIBUTORS {
        Some(first_free_slot(s))
    } else {
        None
    }
}

/// A slot newly taken by `contributor`, with nothing in it yet.
pub open spec fn fresh_record(r: ContributorRecord, contributor: [u8; 32]) -> bool {
    r == ContributorRecord {
        contributor,
        total_contributed_lamports: 0,
        claimable_lamports: 0,
        claimed_lamports: 0,
        is_initialized: true,
        has_claimed_current_round: false,
    }
}

/// The slot of `contributor`, taking the first unused one if it has none.
pub fn find_or_create_contributor_slot(contributors: &mut [ContributorRecord], contributor: [u8; 32]) -> (r: ProgramResult<usize>)
    ensures
        match target_slot(old(contributors)@, contributor) {
            None => r == Err::<usize, ProgramError>(ProgramError::ContributorTableFull)
                && final(contributors)@ == old(contributors)@,
            Some(i) => r == Ok::<usize, ProgramError>(i as usize) && if is_registered(old(contributors)@, contributor) {
                final(contributors)@ == old(contributors)@
            } else {
                &&& final(contributors)@.len() == old(contributors)@.len()
                &&& fresh_record(final(contributors)@[i], contributor)
                &&& final(contributors)@ == old(contributors)@.update(i, final(contributors)@[i])
            },
        },
{
    if let Some(index) = find_contributor_slot(contributors, contributor) {
        return Ok(index);
    }
    let n = contributors.len();
    let mut i: usize = 0;
    while i < n
        invariant
            n == contributors@.len(),
            contributors@ == old(contributors)@,
            !is_registered(old(contributors)@, contributor),
            0 <= i <= n,
            forall|j: int| 0 <= j < i ==> (#[trigger] contributors@[j]).is_initialized,
        decreases n - i,
    {
        if !contributors[i].is_initialized {
            proof {
                lemma_first_free_is_unique(contributors@, i as int);
            }
            if i >= MAX_CONTRIBUTORS {
                return Err(ProgramError::ContributorTableFull);
            }
            contributors.set(i, ContributorRecord {
                contributor,
                total_contributed_lamports: 0,
                claimable_lamports: 0,
                claimed_lamports: 0,
                is_initialized: true,
                has_claimed_current_round: false,
            });
            return Ok(i);
        }
        i = i + 1;
    }
    Err(ProgramError::ContributorTableFull)
}

fn first_free_slot_index(contributors: &[ContributorRecord]) -> (r: Option<usize>)
    ensures
        r is None <==> !has_free_slot(contributors@),
        r matches Some(i) ==> i == first_free_slot(contributors@) && i < contributors@.len(),
{
    let n = contributors.len();
    let mut i: usize = 0;
    while i < n
        invariant
            n == contributors@.len(),
            0 <= i <= n,
            forall|j: int| 0 <= j < i ==> (#[trigger] contributors@[j]).is_initialized,
        decreases n - i,
    {
        if !contributors[i].is_initialized {
            proof {
                lemma_first_free_is_unique(contributors@, i as int);
            }
            return Some(i);
        }
        i = i + 1;
    }
    None
}

/// What `contributor` has contributed so far this round.
pub open spec fn contributed_so_far(s: Seq<ContributorRecord>, contributor: [u8; 32]) -> int {
    if is_registered(s, contributor) {
        s[slot_of(s, contributor)].total_contributed_lamports as int
    } else {
        0
    }
}

/// The first check that a contribution fails, if any.
pub open spec fn contribute_error(a: WordGameAccount, contributor: [u8; 32], lamports: u64) -> Option<ProgramError> {
    if lamports == 0 {
        Some(ProgramError::InvalidAmount)
    } else if a.current_round.is_closed {
        Some(ProgramError::RoundAlreadyClosed)
    } else if target_slot(a.contributors@, contributor) is None {
        Some(ProgramError::ContributorTableFull)
    } else if contributed_so_far(a.contributors@, contributor) + lamports > u64::MAX
        || a.current_round.total_round_contributions + lamports > u64::MAX {
        Some(ProgramError::MathOverflow)
    } else {
        None
    }
}

/// The slot of `contributor` credited with `lamports`.
pub open spec fn credited(s: Seq<ContributorRecord>, contributor: [u8; 32], lamports: u64) -> ContributorRecord {
    if is_registered(s, contributor) {
        let r = s[slot_of(s, contributor)];
        ContributorRecord { total_contributed_lamports: (r.total_contributed_lamports + lamports) as u64, ..r }
    } else {
        ContributorRecord {
            contributor,
            total_contributed_lamports: lamports,
            claimable_lamports: 0,
            claimed_lamports: 0,
            is_initialized: true,
            has_claimed_current_round: false,
        }
    }
}

/// Pays `lamports` into the open round on behalf of `contributor`, who takes
/// a slot on a first contribution.
pub fn contribute(account: &mut WordGameAccount, contributor: [u8; 32], lamports: u64) -> (r: ProgramResult<()>)
    ensures
        match contribute_error(*old(account), contributor, lamports) {
            Some(e) => r == Err::<(), ProgramError>(e) && *final(account) == *old(account),
            None => {
                let i = target_slot(old(account).contributors@, contributor)->0;
                &&& r is Ok
                &&& final(account).owner == old(account).owner
                &&& final(account).treasury_bps == old(account).treasury_bps
                &&& final(account).current_round == (RoundState {
                    total_round_contributions: (old(account).current_round.total_round_contributions + lamports) as u64,
                    ..old(account).current_round
                })
                &&& final(account).contributors@
                    == old(account).contributors@.update(i, credited(old(account).contributors@, contributor, lamports))
            },
        },
{
    if lamports == 0 {
        return Err(ProgramError::InvalidAmount);
    }
    if account.current_round.is_closed {
        return Err(ProgramError::RoundAlreadyClosed);
    }
    let ghost s0 = account.contributors@;
    let so_far: u64 = match find_contributor_slot(account.contributors.as_slice(), contributor) {
        Some(idx) => account.contributors[idx].total_contributed_lamports,
        None => {
            match first_free_slot_index(account.contributors.as_slice()) {
                Some(free) => {
                    if free >= MAX_CONTRIBUTORS {
                        return Err(ProgramError::ContributorTableFull);
                    }
                },
                None => return Err(ProgramError::ContributorTableFull),
            }
            0
        },
    };
    if so_far > u64::MAX - lamports || account.current_round.total_round_contributions > u64::MAX - lamports {
        return Err(ProgramError::MathOverflow);
    }
    let idx = match find_or_create_contributor_slot(account.contributors.as_mut_slice(), contributor) {
        Ok(i) => i,
        Err(e) => return Err(e),
    };
    let rec = account.contributors[idx];
    account.contributors.set(idx, ContributorRecord {
        contributor: rec.contributor,
        total_contributed_lamports: rec.total_contributed_lamports + lamports,
        claimable_lamports: rec.claimable_lamports,
        claimed_lamports: rec.claimed_lamports,
        is_initialized: rec.is_initialized,
        has_claimed_current_round: rec.has_claimed_current_round,
    });
    account.current_round.total_round_contributions = account.current_round.total_round_contributions + lamports;
    proof {
        assert(account.contributors@ =~= s0.update(idx as int, credited(s0, contributor, lamports)));
    }
    Ok(())
}

/// The owner's cut of a round's contributions, rounded down.
pub open spec fn treasury_cut(total: u64, treasury_bps: u16) -> int {
    total as int * treasury_bps as int / 10000
}

/// A contributor's claimable share: its contributions less the owner's cut, rounded down.
pub open spec fn claimable_share(contributed: u64, treasury_bps: u16) -> int {
    contributed as int * (10000 - treasury_bps) / 10000
}

proof fn lemma_cut_bound(x: u64, b: int)
    requires
        0 <= b <= 10000,
    ensures
        0 <= x as int * b / 10000 <= x,
{
    let xi = x as int;
    assert(0 <= xi * b <= xi * 10000) by (nonlinear_arith)
        requires
            0 <= b <= 10000,
            xi >= 0,
    ;
    vstd::arithmetic::div_mod::lemma_div_is_ordered(xi * b, xi * 10000, 10000);
    vstd::arithmetic::div_mod::lemma_div_multiples_vanish(xi, 10000);
    vstd::arithmetic::div_mod::lemma_div_pos_is_pos(xi * b, 10000);
}

/// Closes the open round: the owner's cut is set aside and every registered
/// contributor's share becomes claimable.
pub fn close_round(account: &mut WordGameAccount) -> (r: ProgramResult<()>)
    requires
        old(account).treasury_bps <= BPS_WHOLE,
    ensures
        old(account).current_round.is_closed ==> r == Err::<(), ProgramError>(ProgramError::RoundAlreadyClosed)
            && *final(account) == *old(account),
        !old(account).current_round.is_closed ==> {
            let round = old(account).current_round;
            let cut = treasury_cut(round.total_round_contributions, old(account).treasury_bps);
            &&& r is Ok
            &&& final(account).owner == old(account).owner
            &&& final(account).treasury_bps == old(account).treasury_bps
            &&& final(account).current_round == (RoundState {
                owner_withdrawable_lamports: cut as u64,
                total_round_claimable: (round.total_round_contributions - cut) as u64,
                is_closed: true,
                ..round
            })
            &&& final(account).contributors@.len() == old(account).contributors@.len()
            &&& forall|i: int| 0 <= i < old(account).contributors@.len() ==> {
                let before = #[trigger] old(account).contributors@[i];
                final(account).contributors@[i] == if before.is_initialized {
                    ContributorRecord {
                        claimable_lamports: claimable_share(before.total_contributed_lamports, old(account).treasury_bps) as u64,
                        claimed_lamports: 0,
                        has_claimed_current_round: false,
                        ..before
                    }
                } else {
                    before
                }
            }
        },
{
    if account.current_round.is_closed {
        return Err(ProgramError::RoundAlreadyClosed);
    }
    let bps = account.treasury_bps;
    let total = account.current_round.total_round_contributions;
    proof {
        lemma_cut_bound(total, bps as int);
        lemma_cut_bound(total, 10000 - bps);
    }
    let cut = ((total as u128) * (bps as u128) / 10000u128) as u64;
    assert(cut == treasury_cut(total, bps));
    account.current_round.owner_withdrawable_lamports = cut;
    account.current_round.total_round_claimable = total - cut;
    let ghost s0 = account.contributors@;
    let ghost a1 = *account;
    let keep: u16 = BPS_WHOLE - bps;
    let n = account.contributors.len();
    let mut i: usize = 0;
    while i < n
        invariant
            n == account.contributors@.len(),
            n == s0.len(),
            keep == 10000 - bps,
            bps == a1.treasury_bps,
            s0 == old(account).contributors@,
            account.owner == a1.owner,
            account.treasury_bps == a1.treasury_bps,
            account.current_round == a1.current_round,
            0 <= i <= n,
            forall|j: int| i <= j < n ==> account.contributors@[j] == s0[j],
            forall|j: int| 0 <= j < i ==> {
                let before = #[trigger] s0[j];
                account.contributors@[j] == if before.is_initialized {
                    ContributorRecord {
                        claimable_lamports: claimable_share(before.total_contributed_lamports, bps) as u64,
                        claimed_lamports: 0,
                        has_claimed_current_round: false,
                        ..before
                    }
                } else {
                    before
                }
            },
        decreases n - i,
    {
        let rec = account.contributors[i];
        if rec.is_initialized {
            proof {
                lemma_cut_bound(rec.total_contributed_lamports, keep as int);
            }
            let claimable = ((rec.total_contributed_lamports as u128) * (keep as u128) / 10000u128) as u64;
            account.contributors.set(i, ContributorRecord {
                contributor: rec.contributor,
                total_contributed_lamports: rec.total_contributed_lamports,
                claimable_lamports: claimable,
                claimed_lamports: 0,
                is_initialized: true,
                has_claimed_current_round: false,
            });
        }
        i = i + 1;
    }
    account.current_round.is_closed = true;
    Ok(())
}

/// The first check that a claim fails, if any.
pub open spec fn claim_error(a: WordGameAccount, contributor: [u8; 32]) -> Option<ProgramError> {
    let s = a.contributors@;
    if !a.current_round.is_closed {
        Some(ProgramError::RoundStillOpen)
    } else if !is_registered(s, contributor) {
        Some(ProgramError::ContributorNotFound)
    } else if s[slot_of(s, contributor)].has_claimed_current_round {
        Some(ProgramError::DoubleClaim)
    } else if s[slot_of(s, contributor)].claimable_lamports == 0 {
        Some(ProgramError::InvalidAmount)
    } else if a.current_round.total_round_claimed + s[slot_of(s, contributor)].claimable_lamports > u64::MAX {
        Some(ProgramError::MathOverflow)
    } else {
        None
    }
}

/// Pays `contributor` its claimable share of the closed round, once.
/// Returns the amount paid.
pub fn claim(account: &mut WordGameAccount, contributor: [u8; 32]) -> (r: ProgramResult<u64>)
    ensures
        match claim_error(*old(account), contributor) {
            Some(e) => r == Err::<u64, ProgramError>(e) && *final(account) == *old(account),
            None => {
                let i = slot_of(old(account).contributors@, contributor);
                let before = old(account).contributors@[i];
                &&& r == Ok::<u64, ProgramError>(before.claimable_lamports)
                &&& final(account).owner == old(account).owner
                &&& final(account).treasury_bps == old(account).treasury_bps
                &&& final(account).current_round == (RoundState {
                    total_round_claimed: (old(account).current_round.total_round_claimed + before.claimable_lamports) as u64,
                    ..old(account).current_round
                })
                &&& final(account).contributors@ == old(account).contributors@.update(i, ContributorRecord {
                    claimed_lamports: before.claimable_lamports,
                    claimable_lamports: 0,
                    has_claimed_current_round: true,
                    ..before
                })
            },
        },
{
    if !account.current_round.is_closed {
        return Err(ProgramError::RoundStillOpen);
    }
    let idx = match find_contributor_slot(account.contributors.as_slice(), contributor) {
        Some(i) => i,
        None => return Err(ProgramError::ContributorNotFound),
    };
    let rec = account.contributors[idx];
    if rec.has_claimed_current_round {
        return Err(ProgramError::DoubleClaim);
    }
    let amount = rec.claimable_lamports;
    if amount == 0 {
        return Err(ProgramError::InvalidAmount);
    }
    if account.current_round.total_round_claimed > u64::MAX - amount {
        return Err(ProgramError::MathOverflow);
    }
    account.contributors.set(idx, ContributorRecord {
        contributor: rec.contributor,
        total_contributed_lamports: rec.total_contributed_lamports,
        claimable_lamports: 0,
        claimed_lamports: amount,
        is_initialized: rec.is_initialized,
        has_claimed_current_round: true,
    });
    account.current_round.total_round_claimed = account.current_round.total_round_claimed + amount;
    Ok(amount)
}

/// Pays the owner its cut of the closed round, once. Returns the amount paid.
pub fn owner_withdraw(account: &mut WordGameAccount) -> (r: ProgramResult<u64>)
    ensures
        !old(account).current_round.is_closed ==> r == Err::<u64, ProgramError>(ProgramError::RoundStillOpen)
            && *final(account) == *old(account),
        old(account).current_round.is_closed && old(account).current_round.owner_has_withdrawn
            ==> r == Err::<u64, ProgramError>(ProgramError::DoubleWithdraw) && *final(account) == *old(account),
        old(account).current_round.is_closed && !old(account).current_round.owner_has_withdrawn ==> {
            &&& r == Ok::<u64, ProgramError>(old(account).current_round.owner_withdrawable_lamports)
            &&& final(account).owner == old(account).owner
            &&& final(account).treasury_bps == old(account).treasury_bps
            &&& final(account).contributors == old(account).contributors
            &&& final(account).current_round == (RoundState {
                owner_withdrawable_lamports: 0,
                owner_has_withdrawn: true,
                ..old(account).current_round
            })
        },
{
    if !account.current_round.is_closed {
        return Err(ProgramError::RoundStillOpen);
    }
    if account.current_round.owner_has_withdrawn {
        return Err(ProgramError::DoubleWithdraw);
    }
    let amount = account.current_round.owner_withdrawable_lamports;
    account.current_round.owner_withdrawable_lamports = 0;
    account.current_round.owner_has_withdrawn = true;
    Ok(amount)
}

/// Opens the next round after a closed one: registered contributors keep
/// their slots with their amounts and claim flags cleared.
pub fn reset_round(account: &mut WordGameAccount) -> (r: ProgramResult<()>)
    ensures
        !old(account).current_round.is_closed ==> r == Err::<(), ProgramError>(ProgramError::RoundStillOpen)
            && *final(account) == *old(account),
        old(account).current_round.is_closed && old(account).current_round.round_id == u64::MAX
            ==> r == Err::<(), ProgramError>(ProgramError::MathOverflow) && *final(account) == *old(account),
        old(account).current_round.is_closed && old(account).current_round.round_id < u64::MAX ==> {
            &&& r is Ok
            &&& final(account).owner == old(account).owner
            &&& final(account).treasury_bps == old(account).treasury_bps
            &&& final(account).current_round.is_fresh((old(account).current_round.round_id + 1) as u64)
            &&& final(account).contributors@.len() == old(account).contributors@.len()
            &&& forall|i: int| 0 <= i < old(account).contributors@.len() ==> {
                let before = #[trigger] old(account).contributors@[i];
                final(account).contributors@[i] == if before.is_initialized {
                    ContributorRecord {
                        total_contributed_lamports: 0,
                        claimable_lamports: 0,
                        claimed_lamports: 0,
                        has_claimed_current_round: false,
                        ..before
                    }
                } else {
                    before
                }
            }
        },
{
    if !account.current_round.is_closed {
        return Err(ProgramError::RoundStillOpen);
    }
    let next_round = match account.current_round.round_id.checked_add(1) {
        Some(v) => v,
        None => return Err(ProgramError::MathOverflow),
    };
    let ghost s0 = account.contributors@;
    let ghost a1 = *account;
    let n = account.contributors.len();
    let mut i: usize = 0;
    while i < n
        invariant
            n == account.contributors@.len(),
            n == s0.len(),
            s0 == old(account).contributors@,
            account.owner == a1.owner,
            account.treasury_bps == a1.treasury_bps,
            a1 == *old(account),
            0 <= i <= n,
            forall|j: int| i <= j < n ==> account.contributors@[j] == s0[j],
            forall|j: int| 0 <= j < i ==> {
                let before = #[trigger] s0[j];
                account.contributors@[j] == if before.is_initialized {
                    ContributorRecord {
                        total_contributed_lamports: 0,
                        claimable_lamports: 0,
                        claimed_lamports: 0,
                        has_claimed_current_round: false,
                        ..before
                    }
                } else {
                    before
                }
            },
        decreases n - i,
    {
        let rec = account.contributors[i];
        if rec.is_initialized {
            account.contributors.set(i, ContributorRecord {
                contributor: rec.contributor,
                total_contributed_lamports: 0,
                claimable_lamports: 0,
                claimed_lamports: 0,
                is_initialized: true,
                has_claimed_current_round: false,
            });
        }
        i = i + 1;
    }
    account.current_round = RoundState::new(next_round);
    proof {
        assert(account.contributors@.len() == old(account).contributors@.len());
    }
    Ok(())
}

} // verus!
