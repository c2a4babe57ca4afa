//! Vesting schedules: an amount locked that unlocks linearly, `per_block`
//! each block from the starting block, and the accounts' schedules with the
//! part already vested to them.
use std::collections::HashMap;
use vstd::prelude::*;

verus! {

broadcast use vstd::std_specs::hash::group_hash_axioms;

/// A vesting schedule: `locked` unlocks `per_block` each block from
/// `starting_block` on.
#[derive(PartialEq, Eq, Structural, Debug, Clone, Copy)]
pub struct VestingInfo {
    pub locked: u128,
    pub per_block: u128,
    pub starting_block: u64,
}

/// Errors of the vesting.
#[derive(PartialEq, Eq, Structural, Debug, Clone, Copy)]
pub enum VestingError {
    NotVesting,
    ExistingVestingSchedule,
    AmountLow,
    TransfersAreDisabled,
    MethodNotAllowed,
    DivisionByZero,
}

/// Blocks vested by block `n`: those since the start.
pub open spec fn vested_blocks(v: VestingInfo, n: u64) -> int {
    if n >= v.starting_block {
        n - v.starting_block
    } else {
        0
    }
}

/// The amount unlocked at block `n`: the blocks vested times the amount per
/// block, at most the locked amount (all of it where the product exceeds
/// `u128`).
pub open spec fn unlocked_spec(v: VestingInfo, n: u64) -> int {
    let p = vested_blocks(v, n) * v.per_block;
    if p > u128::MAX {
        v.locked as int
    } else if p < v.locked {
        p
    } else {
        v.locked as int
    }
}

/// The amount still locked at block `n`.
pub open spec fn locked_spec(v: VestingInfo, n: u64) -> int {
    let p = vested_blocks(v, n) * v.per_block;
    if p > u128::MAX {
        0
    } else if p < v.locked {
        v.locked - p
    } else {
        0
    }
}

impl VestingInfo {
    /// The amount still locked at block `n`.
    pub fn locked_at(&self, n: u64) -> (r: u128)
        ensures
            r == locked_spec(*self, n),
    {
        let count = n.saturating_sub(self.starting_block) as u128;
        match count.checked_mul(self.per_block) {
            Some(b) => self.locked.saturating_sub(b),
            None => 0,
        }
    }

    /// The amount unlocked at block `n`.
    pub fn unlocked_at(&self, n: u64) -> (r: u128)
        ensures
            r == unlocked_spec(*self, n),
    {
        let count = n.saturating_sub(self.starting_block) as u128;
        match count.checked_mul(self.per_block) {
            Some(b) => if b < self.locked {
                b
            } else {
                self.locked
            },
            None => self.locked,
        }
    }
}

/// At every block the locked and the unlocked amounts make up the schedule's
/// amount, and neither exceeds it.
pub proof fn law_locked_plus_unlocked(v: VestingInfo, n: u64)
    ensures
        locked_spec(v, n) + unlocked_spec(v, n) == v.locked,
        0 <= unlocked_spec(v, n) <= v.locked,
{
}

/// What is unlocked never decreases as blocks pass.
pub proof fn law_unlocked_monotonic(v: VestingInfo, n1: u64, n2: u64)
    requires
        n1 <= n2,
    ensures
        unlocked_spec(v, n1) <= unlocked_spec(v, n2),
{
    assert(vested_blocks(v, n1) <= vested_blocks(v, n2));
    assert(vested_blocks(v, n1) * v.per_block <= vested_blocks(v, n2) * v.per_block) by (
    nonlinear_arith)
        requires
            0 <= vested_blocks(v, n1) <= vested_blocks(v, n2),
            v.per_block >= 0,
    ;
}

/// What an account's vesting update does: `to_vest` is transferred to it
/// from the vesting account; `completed` says whether the schedule is done
/// (it is then removed), else `unlocked` is recorded as vested and
/// `locked_now` remains locked.
#[derive(PartialEq, Eq, Structural, Debug, Clone, Copy)]
pub struct LockUpdate {
    pub to_vest: u128,
    pub completed: bool,
    pub unlocked: u128,
    pub locked_now: u128,
}

/// The vesting schedules of the accounts and what was vested to them.
pub struct Vestings {
    pub vesting: HashMap<u64, VestingInfo>,
    pub vested: HashMap<u64, u128>,
}

/// What was vested to an account so far.
pub open spec fn vested_of(m: Map<u64, u128>, who: u64) -> int {
    if m.contains_key(who) {
        m[who] as int
    } else {
        0
    }
}

/// The update of an account's vesting at block `now`.
pub open spec fn lock_update_spec(v: VestingInfo, vested: int, now: u64) -> LockUpdate {
    let u = unlocked_spec(v, now);
    LockUpdate {
        to_vest: (if u > vested {
            u - vested
        } else {
            0
        }) as u128,
        completed: u == v.locked,
        unlocked: u as u128,
        locked_now: (v.locked - u) as u128,
    }
}

/// How an update `u` of `who`'s vesting changes the schedules and what was
/// vested: nothing where nothing was to vest; else a completed schedule is
/// removed, and otherwise the unlocked amount is recorded as vested.
pub open spec fn lock_applied(
    vesting: Map<u64, VestingInfo>,
    vested: Map<u64, u128>,
    vesting_after: Map<u64, VestingInfo>,
    vested_after: Map<u64, u128>,
    who: u64,
    u: LockUpdate,
) -> bool {
    &&& u.to_vest == 0 ==> vesting_after == vesting && vested_after == vested
    &&& u.to_vest > 0 && u.completed ==> vesting_after == vesting.remove(who) && vested_after
        == vested.remove(who)
    &&& u.to_vest > 0 && !u.completed ==> vesting_after == vesting && vested_after == vested.insert(
        who,
        u.unlocked,
    )
}

/// The event that follows a successful vesting update of `who`.
#[derive(PartialEq, Eq, Structural, Debug, Clone, Copy)]
pub enum VestingEvent {
    /// The account has vested all of its schedule.
    VestingCompleted(u64),
    /// The account's vesting was updated; the amount is what stays locked.
    VestingUpdated(u64, u128),
}

/// The event of an update `u` of `who`'s vesting: completed where all is
/// unlocked, else updated with what stays locked.
pub open spec fn vest_event_spec(who: u64, u: LockUpdate) -> VestingEvent {
    if u.completed {
        VestingEvent::VestingCompleted(who)
    } else {
        VestingEvent::VestingUpdated(who, u.locked_now)
    }
}

/// The event of an update `u` of `who`'s vesting.
pub fn vest_event(who: u64, u: &LockUpdate) -> (r: VestingEvent)
    ensures
        r == vest_event_spec(who, *u),
{
    if u.completed {
        VestingEvent::VestingCompleted(who)
    } else {
        VestingEvent::VestingUpdated(who, u.locked_now)
    }
}

/// The total paid to an account by vesting updates at the blocks `nows`,
/// in order, of the schedule `v`, starting from `vested` already vested.
/// Once the schedule is completed it is removed and nothing more is paid.
pub open spec fn paid_over(v: VestingInfo, vested: int, nows: Seq<u64>) -> int
    decreases nows.len(),
{
    if nows.len() == 0 {
        0
    } else {
        let u = lock_update_spec(v, vested, nows[0]);
        if u.to_vest > 0 && u.completed {
            u.to_vest as int
        } else if u.to_vest > 0 {
            u.to_vest + paid_over(v, u.unlocked as int, nows.drop_first())
        } else {
            paid_over(v, vested, nows.drop_first())
        }
    }
}

/// Vesting never pays more than the schedule locks: over any sequence of
/// updates, what was vested before plus everything paid stays within the
/// locked amount.
pub proof fn law_paid_within_locked(v: VestingInfo, vested: int, nows: Seq<u64>)
    requires
        0 <= vested <= v.locked,
    ensures
        vested + paid_over(v, vested, nows) <= v.locked,
    decreases nows.len(),
{
    if nows.len() > 0 {
        law_locked_plus_unlocked(v, nows[0]);
        let u = lock_update_spec(v, vested, nows[0]);
        if u.to_vest > 0 && !u.completed {
            law_paid_within_locked(v, u.unlocked as int, nows.drop_first());
        } else if u.to_vest == 0 {
            law_paid_within_locked(v, vested, nows.drop_first());
        }
    }
}

impl Vestings {
    /// No schedules.
    pub fn new() -> (r: Self)
        ensures
            r.vesting@ == Map::<u64, VestingInfo>::empty(),
            r.vested@ == Map::<u64, u128>::empty(),
    {
        Vestings { vesting: HashMap::new(), vested: HashMap::new() }
    }

    /// Whether `who` has a schedule.
    pub fn has_vesting_schedule(&self, who: u64) -> (r: bool)
        ensures
            r == self.vesting@.contains_key(who),
    {
        self.vesting.get(&who).is_some()
    }

    /// The amount of `who` still locked at block `now`, where it vests.
    pub fn vesting_balance(&self, who: u64, now: u64) -> (r: Option<u128>)
        ensures
            r == (if self.vesting@.contains_key(who) {
                Some(locked_spec(self.vesting@[who], now) as u128)
            } else {
                None
            }),
    {
        match self.vesting.get(&who) {
            Some(v) => Some(v.locked_at(now)),
            None => None,
        }
    }

    /// The update of `who`'s vesting at block `now`, without applying it.
    pub fn lock_update(&self, who: u64, now: u64) -> (r: Result<LockUpdate, VestingError>)
        ensures
            !self.vesting@.contains_key(who) ==> r == Err::<LockUpdate, VestingError>(
                VestingError::NotVesting,
            ),
            self.vesting@.contains_key(who) ==> r == Ok::<LockUpdate, VestingError>(
                lock_update_spec(self.vesting@[who], vested_of(self.vested@, who), now),
            ),
    {
        let v = match self.vesting.get(&who) {
            Some(v) => *v,
            None => {
                return Err(VestingError::NotVesting);
            },
        };
        let unlocked = v.unlocked_at(now);
        let vested: u128 = match self.vested.get(&who) {
            Some(x) => *x,
            None => 0,
        };
        let to_vest = unlocked.saturating_sub(vested);
        Ok(
            LockUpdate {
                to_vest,
                completed: unlocked == v.locked,
                unlocked,
                locked_now: v.locked - unlocked,
            },
        )
    }

    /// Updates `who`'s vesting at block `now`, once `to_vest` of the update
    /// has been transferred to it: a completed schedule is removed, else the
    /// unlocked amount is recorded as vested. Nothing changes where nothing
    /// was to vest.
    pub fn update_lock(&mut self, who: u64, now: u64) -> (r: Result<LockUpdate, VestingError>)
        ensures
            !old(self).vesting@.contains_key(who) ==> r == Err::<LockUpdate, VestingError>(
                VestingError::NotVesting,
            ) && final(self).vesting@ == old(self).vesting@ && final(self).vested@ == old(self).vested@,
            old(self).vesting@.contains_key(who) ==> {
                let u = lock_update_spec(old(self).vesting@[who], vested_of(old(self).vested@, who), now);
                &&& r == Ok::<LockUpdate, VestingError>(u)
                &&& lock_applied(
                    old(self).vesting@,
                    old(self).vested@,
                    final(self).vesting@,
                    final(self).vested@,
                    who,
                    u,
                )
            },
    {
        let u = match self.lock_update(who, now) {
            Ok(u) => u,
            Err(e) => {
                return Err(e);
            },
        };
        if u.to_vest > 0 {
            if u.completed {
                self.vesting.remove(&who);
                self.vested.remove(&who);
            } else {
                self.vested.insert(who, u.unlocked);
            }
        }
        Ok(u)
    }

    /// Vests what `who` has unlocked by block `now`, as `update_lock`, and
    /// gives the event that follows: every successful update is followed by
    /// either `VestingCompleted` or `VestingUpdated`.
    pub fn vest(&mut self, who: u64, now: u64) -> (r: Result<(LockUpdate, VestingEvent), VestingError>)
        ensures
            !old(self).vesting@.contains_key(who) ==> r == Err::<(LockUpdate, VestingEvent), VestingError>(
                VestingError::NotVesting,
            ) && final(self).vesting@ == old(self).vesting@ && final(self).vested@ == old(self).vested@,
            old(self).vesting@.contains_key(who) ==> {
                let u = lock_update_spec(old(self).vesting@[who], vested_of(old(self).vested@, who), now);
                &&& r == Ok::<(LockUpdate, VestingEvent), VestingError>((u, vest_event_spec(who, u)))
                &&& lock_applied(
                    old(self).vesting@,
                    old(self).vested@,
                    final(self).vesting@,
                    final(self).vested@,
                    who,
                    u,
                )
            },
    {
        let u = self.update_lock(who, now)?;
        let e = vest_event(who, &u);
        Ok((u, e))
    }

    /// Vests what `target` has unlocked by block `now`, on behalf of another
    /// account; the same as `vest` for `target`.
    pub fn vest_other(&mut self, target: u64, now: u64) -> (r: Result<(LockUpdate, VestingEvent), VestingError>)
        ensures
            !old(self).vesting@.contains_key(target) ==> r == Err::<(LockUpdate, VestingEvent), VestingError>(
                VestingError::NotVesting,
            ) && final(self).vesting@ == old(self).vesting@ && final(self).vested@ == old(self).vested@,
            old(self).vesting@.contains_key(target) ==> {
                let u = lock_update_spec(
                    old(self).vesting@[target],
                    vested_of(old(self).vested@, target),
                    now,
                );
                &&& r == Ok::<(LockUpdate, VestingEvent), VestingError>((u, vest_event_spec(target, u)))
                &&& lock_applied(
                    old(self).vesting@,
                    old(self).vested@,
                    final(self).vesting@,
                    final(self).vested@,
                    target,
                    u,
                )
            },
    {
        self.vest(target, now)
    }

    /// Gives `who` a schedule (a zero amount gives none). Its first update
    /// follows, as `update_lock`.
    pub fn add_vesting_schedule(
        &mut self,
        who: u64,
        locked: u128,
        per_block: u128,
        starting_block: u64,
    ) -> (r: Result<(), VestingError>)
        ensures
            locked == 0 ==> r is Ok && final(self).vesting@ == old(self).vesting@,
            locked != 0 && old(self).vesting@.contains_key(who) ==> r == Err::<(), VestingError>(
                VestingError::ExistingVestingSchedule,
            ) && final(self).vesting@ == old(self).vesting@,
            locked != 0 && !old(self).vesting@.contains_key(who) ==> r is Ok && final(self).vesting@
                == old(self).vesting@.insert(who, VestingInfo { locked, per_block, starting_block }),
            final(self).vested@ == old(self).vested@,
    {
        if locked == 0 {
            return Ok(());
        }
        if self.has_vesting_schedule(who) {
            return Err(VestingError::ExistingVestingSchedule);
        }
        self.vesting.insert(who, VestingInfo { locked, per_block, starting_block });
        Ok(())
    }

    /// Adds `locked` (saturating) to `who`'s schedule and spreads the new
    /// total over `duration_blocks`. Its update follows, as `update_lock`.
    pub fn update_vesting_schedule(&mut self, who: u64, locked: u128, duration_blocks: u128) -> (r:
        Result<(), VestingError>)
        ensures
            final(self).vested@ == old(self).vested@,
            locked == 0 ==> r is Ok && final(self).vesting@ == old(self).vesting@,
            locked != 0 && !old(self).vesting@.contains_key(who) ==> r == Err::<(), VestingError>(
                VestingError::NotVesting,
            ) && final(self).vesting@ == old(self).vesting@,
            locked != 0 && old(self).vesting@.contains_key(who) && duration_blocks == 0 ==> r
                == Err::<(), VestingError>(VestingError::DivisionByZero) && final(self).vesting@ == old(
                self,
            ).vesting@,
            locked != 0 && old(self).vesting@.contains_key(who) && duration_blocks != 0 ==> {
                let v = old(self).vesting@[who];
                let total: int = if v.locked + locked > u128::MAX {
                    u128::MAX as int
                } else {
                    v.locked + locked
                };
                &&& r is Ok
                &&& final(self).vesting@ == old(self).vesting@.insert(
                    who,
                    VestingInfo {
                        locked: total as u128,
                        per_block: (total / duration_blocks as int) as u128,
                        starting_block: v.starting_block,
                    },
                )
            },
    {
        if locked == 0 {
            return Ok(());
        }
        let v = match self.vesting.get(&who) {
            Some(v) => *v,
            None => {
                return Err(VestingError::NotVesting);
            },
        };
        let total = v.locked.saturating_add(locked);
        if duration_blocks == 0 {
            return Err(VestingError::DivisionByZero);
        }
        let per_block = total / duration_blocks;
        self.vesting.insert(
            who,
            VestingInfo { locked: total, per_block, starting_block: v.starting_block },
        );
        Ok(())
    }

    /// Checks a forced vested transfer to `target`: transfers must be
    /// enabled, the amount not below the minimum, the amount per block
    /// non-zero, and the target without a schedule. The transfer of the
    /// amount to the vesting account and the new schedule follow.
    pub fn check_vested_transfer(
        &self,
        target: u64,
        schedule: &VestingInfo,
        transfers_enabled: bool,
        min_vested_transfer: u128,
    ) -> (r: Result<(), VestingError>)
        ensures
            r == (if !transfers_enabled {
                Err::<(), VestingError>(VestingError::TransfersAreDisabled)
            } else if schedule.locked < min_vested_transfer || schedule.per_block == 0 {
                Err(VestingError::AmountLow)
            } else if self.vesting@.contains_key(target) {
                Err(VestingError::ExistingVestingSchedule)
            } else {
                Ok(())
            }),
    {
        if !transfers_enabled {
            return Err(VestingError::TransfersAreDisabled);
        }
        if schedule.locked < min_vested_transfer {
            return Err(VestingError::AmountLow);
        }
        if schedule.per_block == 0 {
            return Err(VestingError::AmountLow);
        }
        if self.has_vesting_schedule(target) {
            return Err(VestingError::ExistingVestingSchedule);
        }
        Ok(())
    }
}

/// Sum of the locked amounts, saturating at `u128::MAX`.
pub open spec fn saturating_total(locked: Seq<u128>, n: int) -> int
    decreases n,
{
    if n <= 0 {
        0
    } else {
        let s = saturating_total(locked, n - 1) + locked[n - 1];
        if s > u128::MAX {
            u128::MAX as int
        } else {
            s
        }
    }
}

/// The deposit of the vesting account at genesis: the sum of the amounts
/// locked by the genesis schedules, saturating.
pub fn genesis_deposit(schedules: &Vec<VestingInfo>) -> (r: u128)
    ensures
        r == saturating_total(schedules@.map_values(|v: VestingInfo| v.locked), schedules@.len() as int),
{
    let ghost locked = schedules@.map_values(|v: VestingInfo| v.locked);
    let mut total: u128 = 0;
    let mut k: usize = 0;
    while k < schedules.len()
        invariant
            k <= schedules@.len(),
            locked == schedules@.map_values(|v: VestingInfo| v.locked),
            total == saturating_total(locked, k as int),
        decreases schedules@.len() - k,
    {
        total = total.saturating_add(schedules[k].locked);
        k = k + 1;
    }
    total
}

/// The schedules that the genesis entries set, in order: each entry sets
/// its account's schedule.
pub open spec fn genesis_schedules(entries: Seq<(u64, VestingInfo)>) -> Map<u64, VestingInfo>
    decreases entries.len(),
{
    if entries.len() == 0 {
        Map::empty()
    } else {
        genesis_schedules(entries.drop_last()).insert(entries.last().0, entries.last().1)
    }
}

/// At genesis an account vests exactly the schedule of its last entry: the
/// entry at `k` with no later entry for the same account gives that
/// account's schedule, unchanged.
pub proof fn law_genesis_keeps_last_schedule(entries: Seq<(u64, VestingInfo)>, k: int)
    requires
        0 <= k < entries.len(),
        forall|j: int| k < j < entries.len() ==> (#[trigger] entries[j]).0 != entries[k].0,
    ensures
        genesis_schedules(entries).contains_key(entries[k].0),
        genesis_schedules(entries)[entries[k].0] == entries[k].1,
    decreases entries.len(),
{
    if k < entries.len() - 1 {
        let init = entries.drop_last();
        assert forall|j: int| k < j < init.len() implies (#[trigger] init[j]).0 != init[k].0 by {
            assert(init[j] == entries[j]);
        }
        law_genesis_keeps_last_schedule(init, k);
        assert(entries.last() == entries[entries.len() - 1]);
    }
}

impl Vestings {
    /// The schedules of genesis, one per entry (a later entry for the same
    /// account replaces an earlier one); their first updates follow.
    pub fn genesis(entries: &Vec<(u64, VestingInfo)>) -> (r: Self)
        ensures
            forall|who: u64|
                r.vesting@.contains_key(who) <==> exists|k: int|
                    0 <= k < entries@.len() && (#[trigger] entries@[k]).0 == who,
            r.vested@ == Map::<u64, u128>::empty(),
            r.vesting@ == genesis_schedules(entries@),
            forall|k: int|
                0 <= k < entries@.len() && (forall|j: int|
                    k < j < entries@.len() ==> (#[trigger] entries@[j]).0 != entries@[k].0) ==> r.vesting@[
                (#[trigger] entries@[k]).0] == entries@[k].1,
    {
        let mut v = Vestings::new();
        let mut k: usize = 0;
        while k < entries.len()
            invariant
                k <= entries@.len(),
                v.vested@ == Map::<u64, u128>::empty(),
                forall|who: u64|
                    v.vesting@.contains_key(who) <==> exists|m: int|
                        0 <= m < k && (#[trigger] entries@[m]).0 == who,
                v.vesting@ == genesis_schedules(entries@.take(k as int)),
            decreases entries@.len() - k,
        {
            let (who, info) = entries[k];
            v.vesting.insert(who, info);
            proof {
                assert(entries@.take(k + 1).drop_last() =~= entries@.take(k as int));
                assert(entries@.take(k + 1).last() == entries@[k as int]);
                assert forall|x: u64|
                    v.vesting@.contains_key(x) <==> exists|m: int|
                        0 <= m < k + 1 && (#[trigger] entries@[m]).0 == x by {
                    if x == who {
                        assert(entries@[k as int].0 == x);
                    }
                    if exists|m: int| 0 <= m < k + 1 && (#[trigger] entries@[m]).0 == x {
                        let m = choose|m: int| 0 <= m < k + 1 && (#[trigger] entries@[m]).0 == x;
                        if m < k {
                            assert(exists|m2: int| 0 <= m2 < k && (#[trigger] entries@[m2]).0 == x);
                        }
                    }
                }
            }
            k = k + 1;
        }
        proof {
            assert(entries@.take(k as int) =~= entries@);
            assert forall|m: int|
                0 <= m < entries@.len() && (forall|j: int|
                    m < j < entries@.len() ==> (#[trigger] entries@[j]).0 != entries@[m].0) implies v.vesting@[
                (#[trigger] entries@[m]).0] == entries@[m].1 by {
                law_genesis_keeps_last_schedule(entries@, m);
            }
        }
        v
    }
}

} // verus!
