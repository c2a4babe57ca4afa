//! Staking of EQ: stakes locked for a period, rewards that are staked for
//! the rewards lock period, and the set of reward ids already paid.
use crate::balance::SignedBalance;
use vstd::prelude::*;

verus! {

/// A month in seconds in production builds (30 days).
pub const MONTH_IN_SECS_PRODUCTION: u64 = 2_592_000;

/// A month in seconds in test builds (ten minutes).
pub const MONTH_IN_SECS_TEST: u64 = 600;

/// The lock period of a stake, in months.
#[derive(PartialEq, Eq, Structural, Debug, Clone, Copy)]
pub enum StakePeriod {
    One,
    Two,
    Three,
    Six,
    Twelve,
    Sixteen,
    Eighteen,
    TwentyFour,
}

/// The number of months of a period.
pub open spec fn months(p: StakePeriod) -> int {
    match p {
        StakePeriod::One => 1,
        StakePeriod::Two => 2,
        StakePeriod::Three => 3,
        StakePeriod::Six => 6,
        StakePeriod::Twelve => 12,
        StakePeriod::Sixteen => 16,
        StakePeriod::Eighteen => 18,
        StakePeriod::TwentyFour => 24,
    }
}

/// A month is short enough that two years fit in `u64` seconds.
pub open spec fn month_ok(month_in_secs: u64) -> bool {
    month_in_secs * 24 <= u64::MAX
}

impl StakePeriod {
    /// The period in seconds, for a month of `month_in_secs` seconds.
    pub fn as_secs(&self, month_in_secs: u64) -> (r: u64)
        requires
            month_ok(month_in_secs),
        ensures
            r == months(*self) * month_in_secs,
            *self == StakePeriod::One ==> r == month_in_secs,
            *self == StakePeriod::Two ==> r == 2 * month_in_secs,
            *self == StakePeriod::Three ==> r == 3 * month_in_secs,
            *self == StakePeriod::Six ==> r == 6 * month_in_secs,
            *self == StakePeriod::Twelve ==> r == 12 * month_in_secs,
            *self == StakePeriod::Sixteen ==> r == 16 * month_in_secs,
            *self == StakePeriod::Eighteen ==> r == 18 * month_in_secs,
            *self == StakePeriod::TwentyFour ==> r == 24 * month_in_secs,
    {
        match self {
            StakePeriod::One => month_in_secs,
            StakePeriod::Two => 2 * month_in_secs,
            StakePeriod::Three => 3 * month_in_secs,
            StakePeriod::Six => 6 * month_in_secs,
            StakePeriod::Twelve => 12 * month_in_secs,
            StakePeriod::Sixteen => 16 * month_in_secs,
            StakePeriod::Eighteen => 18 * month_in_secs,
            StakePeriod::TwentyFour => 24 * month_in_secs,
        }
    }
}

/// A stake: `amount` locked from `start` (seconds) for `period`.
#[derive(PartialEq, Eq, Structural, Debug, Clone, Copy)]
pub struct Stake {
    pub period: StakePeriod,
    pub start: u64,
    pub amount: u128,
}

/// The time at which a stake may be unlocked.
pub open spec fn stake_end(s: Stake, month_in_secs: u64) -> int {
    s.start + months(s.period) * month_in_secs
}

/// The end of the stake fits in `u64` seconds.
pub open spec fn stake_end_fits(s: Stake, month_in_secs: u64) -> bool {
    month_ok(month_in_secs) && stake_end(s, month_in_secs) <= u64::MAX
}

/// Errors of staking.
#[derive(PartialEq, Eq, Structural, Debug, Clone, Copy)]
pub enum StakingError {
    MaxStakesNumberReached,
    InsufficientFunds,
    StakeNotFound,
    LockPeriodNotEnded,
    /// A custom reward failed: code 0 for its transfer, 1 for its stake.
    CustomReward(u8),
    UnableToAddRewardExternalId,
    Overflow,
}

/// Each period lasts the number of months in its name: a stake of any
/// period started at `start` ends that many months of `month_in_secs`
/// seconds later, and a longer period ends later.
pub proof fn law_stake_lasts_its_months(start: u64, amount: u128, month_in_secs: u64)
    ensures
        stake_end(Stake { period: StakePeriod::One, start, amount }, month_in_secs) == start + 1
            * month_in_secs,
        stake_end(Stake { period: StakePeriod::Two, start, amount }, month_in_secs) == start + 2
            * month_in_secs,
        stake_end(Stake { period: StakePeriod::Three, start, amount }, month_in_secs) == start + 3
            * month_in_secs,
        stake_end(Stake { period: StakePeriod::Six, start, amount }, month_in_secs) == start + 6
            * month_in_secs,
        stake_end(Stake { period: StakePeriod::Twelve, start, amount }, month_in_secs) == start + 12
            * month_in_secs,
        stake_end(Stake { period: StakePeriod::Sixteen, start, amount }, month_in_secs) == start + 16
            * month_in_secs,
        stake_end(Stake { period: StakePeriod::Eighteen, start, amount }, month_in_secs) == start
            + 18 * month_in_secs,
        stake_end(Stake { period: StakePeriod::TwentyFour, start, amount }, month_in_secs) == start
            + 24 * month_in_secs,
{
}

/// A stake cannot be unlocked before as many months as its period names
/// have passed since its start: unlocking earlier is refused.
pub proof fn law_no_unlock_before_period(s: Stake, now: u64, month_in_secs: u64)
    requires
        now < s.start + (match s.period {
            StakePeriod::One => 1int,
            StakePeriod::Two => 2int,
            StakePeriod::Three => 3int,
            StakePeriod::Six => 6int,
            StakePeriod::Twelve => 12int,
            StakePeriod::Sixteen => 16int,
            StakePeriod::Eighteen => 18int,
            StakePeriod::TwentyFour => 24int,
        }) * month_in_secs,
    ensures
        now < stake_end(s, month_in_secs),
{
}

/// Unlocks a stake whose period has ended: returns the staking lock less the
/// stake (saturating at zero).
pub fn unlock_stake(stake: &Stake, now: u64, lock: u128, month_in_secs: u64) -> (r: Result<
    u128,
    StakingError,
>)
    requires
        stake_end_fits(*stake, month_in_secs),
    ensures
        now >= stake_end(*stake, month_in_secs) ==> r == Ok::<u128, StakingError>(
            (if lock >= stake.amount {
                lock - stake.amount
            } else {
                0
            }) as u128,
        ),
        now < stake_end(*stake, month_in_secs) ==> r == Err::<u128, StakingError>(
            StakingError::LockPeriodNotEnded,
        ),
{
    if now >= stake.start + stake.period.as_secs(month_in_secs) {
        Ok(lock.saturating_sub(stake.amount))
    } else {
        Err(StakingError::LockPeriodNotEnded)
    }
}

/// What can be staked: the free part of a held balance, up to the amount asked.
pub open spec fn stakeable(current: u128, locked: u128, amount: u128) -> int {
    let free: int = if current >= locked {
        current - locked
    } else {
        0
    };
    if free < amount {
        free
    } else {
        amount as int
    }
}

/// Stakes from a held balance the free part of it, up to `amount`, at
/// `now`; a debt stakes nothing. On success the stake is appended and the
/// new staking lock returned (`None` where nothing happens).
pub fn do_stake(
    stakes: &mut Vec<Stake>,
    max_stakes: u32,
    balance: SignedBalance,
    stake_locked: u128,
    amount: u128,
    period: StakePeriod,
    now: u64,
) -> (r: Result<Option<u128>, StakingError>)
    ensures
        match balance {
            SignedBalance::Negative(_) => r == Ok::<Option<u128>, StakingError>(None) && final(stakes)@ == old(stakes)@,
            SignedBalance::Positive(cur) => {
                let a = stakeable(cur, stake_locked, amount);
                if a == 0 {
                    r == Err::<Option<u128>, StakingError>(StakingError::InsufficientFunds)
                        && final(stakes)@ == old(stakes)@
                } else if old(stakes)@.len() >= max_stakes {
                    r == Err::<Option<u128>, StakingError>(StakingError::MaxStakesNumberReached)
                        && final(stakes)@ == old(stakes)@
                } else {
                    r == Ok::<Option<u128>, StakingError>(Some((stake_locked + a) as u128))
                        && final(stakes)@ == old(stakes)@.push(
                        Stake { amount: a as u128, start: now, period },
                    )
                }
            },
        },
{
    match balance {
        SignedBalance::Positive(cur) => {
            let free = cur.saturating_sub(stake_locked);
            let a = if free < amount {
                free
            } else {
                amount
            };
            if a == 0 {
                return Err(StakingError::InsufficientFunds);
            }
            if stakes.len() >= max_stakes as usize {
                return Err(StakingError::MaxStakesNumberReached);
            }
            stakes.push(Stake { amount: a, start: now, period });
            Ok(Some(stake_locked + a))
        },
        SignedBalance::Negative(_) => Ok(None),
    }
}

/// Unlocks a stake of an account: the stake at `index`, or the reward stake
/// where no index is given. The stake is removed and the new staking lock
/// returned.
pub fn unlock(
    stakes: &mut Vec<Stake>,
    reward: &mut Option<Stake>,
    index: Option<u32>,
    now: u64,
    lock: u128,
    month_in_secs: u64,
) -> (r: Result<u128, StakingError>)
    requires
        index matches Some(i) ==> (i < old(stakes)@.len() ==> stake_end_fits(
            old(stakes)@[i as int],
            month_in_secs,
        )),
        index is None ==> (*old(reward) matches Some(s) ==> stake_end_fits(s, month_in_secs)),
    ensures
        match index {
            Some(i) => if i >= old(stakes)@.len() {
                r == Err::<u128, StakingError>(StakingError::StakeNotFound) && final(stakes)@ == old(stakes)@
            } else if now < stake_end(old(stakes)@[i as int], month_in_secs) {
                r == Err::<u128, StakingError>(StakingError::LockPeriodNotEnded) && final(stakes)@
                    == old(stakes)@
            } else {
                r == Ok::<u128, StakingError>(
                    (if lock >= old(stakes)@[i as int].amount {
                        lock - old(stakes)@[i as int].amount
                    } else {
                        0
                    }) as u128,
                ) && final(stakes)@ == old(stakes)@.remove(i as int)
            },
            None => final(stakes)@ == old(stakes)@ && match *old(reward) {
                None => r == Err::<u128, StakingError>(StakingError::StakeNotFound) && *final(reward) == *old(reward),
                Some(s) => if now < stake_end(s, month_in_secs) {
                    r == Err::<u128, StakingError>(StakingError::LockPeriodNotEnded) && *final(reward) == *old(reward)
                } else {
                    r == Ok::<u128, StakingError>(
                        (if lock >= s.amount {
                            lock - s.amount
                        } else {
                            0
                        }) as u128,
                    ) && *final(reward) == None::<Stake>
                },
            },
        },
{
    match index {
        Some(i) => {
            if i as usize >= stakes.len() {
                return Err(StakingError::StakeNotFound);
            }
            let s = stakes[i as usize];
            match unlock_stake(&s, now, lock, month_in_secs) {
                Ok(l) => {
                    stakes.remove(i as usize);
                    Ok(l)
                },
                Err(e) => Err(e),
            }
        },
        None => {
            match *reward {
                None => Err(StakingError::StakeNotFound),
                Some(s) => {
                    match unlock_stake(&s, now, lock, month_in_secs) {
                        Ok(l) => {
                            *reward = None;
                            Ok(l)
                        },
                        Err(e) => Err(e),
                    }
                },
            }
        },
    }
}

/// The ids are strictly increasing (a set, kept in order).
pub open spec fn strictly_increasing(s: Seq<u64>) -> bool {
    forall|i: int, j: int| 0 <= i < j < s.len() ==> s[i] < s[j]
}

/// The reward ids after recording `id`, as a set: the smallest is evicted
/// when the set is full.
pub open spec fn ids_after(ids: Seq<u64>, max: u32, id: u64) -> Set<u64> {
    if ids.len() >= max {
        ids.to_set().remove(ids[0]).insert(id)
    } else {
        ids.to_set().insert(id)
    }
}

proof fn lemma_drop_smallest(s: Seq<u64>)
    requires
        strictly_increasing(s),
        s.len() > 0,
    ensures
        strictly_increasing(s.skip(1)),
        s.skip(1).to_set() == s.to_set().remove(s[0]),
        !s.skip(1).contains(s[0]),
{
    let t = s.skip(1);
    assert forall|x: u64| t.to_set().contains(x) <==> s.to_set().remove(s[0]).contains(x) by {
        if t.contains(x) {
            let m = choose|m: int| 0 <= m < t.len() && t[m] == x;
            assert(s[m + 1] == x);
        }
        if s.contains(x) && x != s[0] {
            let m = choose|m: int| 0 <= m < s.len() && s[m] == x;
            assert(m != 0);
            assert(t[m - 1] == x);
        }
    }
    assert(t.to_set() =~= s.to_set().remove(s[0]));
    if t.contains(s[0]) {
        let m = choose|m: int| 0 <= m < t.len() && t[m] == s[0];
        assert(s[m + 1] == s[0]);
    }
}

proof fn lemma_insert_in_order(s: Seq<u64>, p: int, x: u64)
    requires
        strictly_increasing(s),
        0 <= p <= s.len(),
        forall|m: int| 0 <= m < p ==> s[m] < x,
        p < s.len() ==> s[p] > x,
    ensures
        strictly_increasing(s.insert(p, x)),
        s.insert(p, x).to_set() == s.to_set().insert(x),
{
    let t = s.insert(p, x);
    assert forall|i: int, j: int| 0 <= i < j < t.len() implies t[i] < t[j] by {
        if j < p {
        } else if j == p {
        } else if i < p {
            assert(s[i] < x);
            if p < s.len() {
                assert(s[p] <= s[j - 1]);
            }
        } else if i == p {
            assert(s[p] <= s[j - 1]);
        } else {
        }
    }
    assert forall|y: u64| t.to_set().contains(y) <==> s.to_set().insert(x).contains(y) by {
        if t.contains(y) {
            let m = choose|m: int| 0 <= m < t.len() && t[m] == y;
            if m < p {
                assert(s[m] == y);
            } else if m > p {
                assert(s[m - 1] == y);
            }
        }
        if s.contains(y) {
            let m = choose|m: int| 0 <= m < s.len() && s[m] == y;
            if m < p {
                assert(t[m] == y);
            } else {
                assert(t[m + 1] == y);
            }
        }
        if y == x {
            assert(t[p] == x);
        }
    }
    assert(t.to_set() =~= s.to_set().insert(x));
}

/// Records the id of a reward. `Ok(false)` where it was recorded already
/// (the reward is not paid again); otherwise it is added, the smallest id
/// evicted when `max` ids are held. No id can be held when `max` is zero.
pub fn record_reward_id(ids: &mut Vec<u64>, max: u32, id: u64) -> (r: Result<bool, StakingError>)
    requires
        strictly_increasing(old(ids)@),
        old(ids)@.len() <= max,
    ensures
        strictly_increasing(final(ids)@),
        final(ids)@.len() <= max,
        old(ids)@.contains(id) ==> r == Ok::<bool, StakingError>(false) && final(ids)@ == old(ids)@,
        !old(ids)@.contains(id) && max == 0 ==> r == Err::<bool, StakingError>(
            StakingError::UnableToAddRewardExternalId,
        ) && final(ids)@ == old(ids)@,
        !old(ids)@.contains(id) && max > 0 ==> r == Ok::<bool, StakingError>(true) && final(ids)@.to_set() == ids_after(old(ids)@, max, id),
{
    let mut k: usize = 0;
    while k < ids.len()
        invariant
            k <= ids@.len(),
            ids@ == old(ids)@,
            strictly_increasing(ids@),
            ids@.len() <= max,
            forall|m: int| 0 <= m < k ==> ids@[m] != id,
        decreases ids@.len() - k,
    {
        if ids[k] == id {
            proof {
                assert(ids@.contains(id));
            }
            return Ok(false);
        }
        k = k + 1;
    }
    assert(!ids@.contains(id));
    if max == 0 {
        return Err(StakingError::UnableToAddRewardExternalId);
    }
    let ghost before = ids@;
    if ids.len() == max as usize {
        proof {
            lemma_drop_smallest(before);
        }
        ids.remove(0);
        assert(ids@ =~= before.skip(1));
    }
    let ghost mid = ids@;
    assert(!mid.contains(id));
    assert(mid.to_set() == if before.len() >= max {
        before.to_set().remove(before[0])
    } else {
        before.to_set()
    });
    let mut p: usize = 0;
    while p < ids.len() && ids[p] < id
        invariant
            ids@ == mid,
            p <= mid.len(),
            forall|m: int| 0 <= m < p ==> mid[m] < id,
        decreases mid.len() - p,
    {
        p = p + 1;
    }
    proof {
        if p < mid.len() {
            assert(mid[p as int] != id);
        }
        lemma_insert_in_order(mid, p as int, id);
    }
    ids.insert(p, id);
    Ok(true)
}

/// The reward stake of an account after a reward of `amount` at `now`, and
/// its staking lock: an ended reward stake is unlocked and replaced by a new
/// one for the rewards lock period; a running one grows; none is created.
/// The lock then grows by the amount.
pub open spec fn reward_stake_spec(
    current: Option<Stake>,
    now: u64,
    amount: u128,
    lock_period: StakePeriod,
    lock: u128,
    month_in_secs: u64,
) -> Result<(Stake, u128), StakingError> {
    let fresh = Stake { start: now, amount, period: lock_period };
    match current {
        Some(s) => if now >= stake_end(s, month_in_secs) {
            let l: int = if lock >= s.amount {
                lock - s.amount
            } else {
                0
            };
            if l + amount > u128::MAX {
                Err(StakingError::Overflow)
            } else {
                Ok((fresh, (l + amount) as u128))
            }
        } else if s.amount + amount > u128::MAX {
            Err(StakingError::Overflow)
        } else if lock + amount > u128::MAX {
            Err(StakingError::Overflow)
        } else {
            Ok((Stake { amount: (s.amount + amount) as u128, ..s }, (lock + amount) as u128))
        },
        None => if lock + amount > u128::MAX {
            Err(StakingError::Overflow)
        } else {
            Ok((fresh, (lock + amount) as u128))
        },
    }
}

/// The reward stake and the staking lock after a reward. The reward is
/// transferred to the account between the two.
pub fn reward_stake(
    current: Option<Stake>,
    now: u64,
    amount: u128,
    lock_period: StakePeriod,
    lock: u128,
    month_in_secs: u64,
) -> (r: Result<(Stake, u128), StakingError>)
    requires
        current matches Some(s) ==> stake_end_fits(s, month_in_secs),
    ensures
        r == reward_stake_spec(current, now, amount, lock_period, lock, month_in_secs),
{
    let fresh = Stake { start: now, amount, period: lock_period };
    match current {
        Some(s) => {
            if now >= s.start + s.period.as_secs(month_in_secs) {
                let l = match unlock_stake(&s, now, lock, month_in_secs) {
                    Ok(l) => l,
                    Err(e) => {
                        return Err(e);
                    },
                };
                match l.checked_add(amount) {
                    Some(nl) => Ok((fresh, nl)),
                    None => Err(StakingError::Overflow),
                }
            } else {
                let grown = match s.amount.checked_add(amount) {
                    Some(a) => a,
                    None => {
                        return Err(StakingError::Overflow);
                    },
                };
                match lock.checked_add(amount) {
                    Some(nl) => Ok((Stake { amount: grown, ..s }, nl)),
                    None => Err(StakingError::Overflow),
                }
            }
        },
        None => {
            match lock.checked_add(amount) {
                Some(nl) => Ok((fresh, nl)),
                None => Err(StakingError::Overflow),
            }
        },
    }
}

/// Whether `id` is among the recorded reward ids.
fn reward_id_recorded(ids: &Vec<u64>, id: u64) -> (r: bool)
    ensures
        r == ids@.contains(id),
{
    let mut k: usize = 0;
    while k < ids.len()
        invariant
            k <= ids@.len(),
            forall|m: int| 0 <= m < k ==> ids@[m] != id,
        decreases ids@.len() - k,
    {
        if ids[k] == id {
            assert(ids@[k as int] == id);
            return true;
        }
        k = k + 1;
    }
    false
}

/// A reward of `amount` with the external id `id`: a reward whose id was
/// recorded already is not paid again (`Ok(None)`, nothing changes);
/// otherwise the id is recorded (the smallest evicted when `max` are held)
/// and the reward stake and the staking lock become those of
/// `reward_stake`. A failure changes nothing.
pub fn reward(
    ids: &mut Vec<u64>,
    max: u32,
    id: u64,
    current: Option<Stake>,
    now: u64,
    amount: u128,
    lock_period: StakePeriod,
    lock: u128,
    month_in_secs: u64,
) -> (r: Result<Option<(Stake, u128)>, StakingError>)
    requires
        strictly_increasing(old(ids)@),
        old(ids)@.len() <= max,
        current matches Some(s) ==> stake_end_fits(s, month_in_secs),
    ensures
        strictly_increasing(final(ids)@),
        final(ids)@.len() <= max,
        old(ids)@.contains(id) ==> r == Ok::<Option<(Stake, u128)>, StakingError>(None)
            && final(ids)@ == old(ids)@,
        !old(ids)@.contains(id) && max == 0 ==> r == Err::<Option<(Stake, u128)>, StakingError>(
            StakingError::UnableToAddRewardExternalId,
        ) && final(ids)@ == old(ids)@,
        !old(ids)@.contains(id) && max > 0 ==> match reward_stake_spec(
            current,
            now,
            amount,
            lock_period,
            lock,
            month_in_secs,
        ) {
            Err(e) => r == Err::<Option<(Stake, u128)>, StakingError>(e) && final(ids)@ == old(ids)@,
            Ok(p) => r == Ok::<Option<(Stake, u128)>, StakingError>(Some(p))
                && final(ids)@.to_set() == ids_after(old(ids)@, max, id)
                && final(ids)@.contains(id),
        },
{
    if reward_id_recorded(ids, id) {
        return Ok(None);
    }
    if max == 0 {
        return Err(StakingError::UnableToAddRewardExternalId);
    }
    let paid = reward_stake(current, now, amount, lock_period, lock, month_in_secs)?;
    let ghost before = ids@;
    let recorded = record_reward_id(ids, max, id);
    proof {
        law_reward_paid_once(before, max, id, ids@);
    }
    match recorded {
        Ok(_) => Ok(Some(paid)),
        Err(e) => Err(e),
    }
}

/// A reward is paid once per external id: once a reward with `id` has been
/// paid, the recorded ids hold `id`, so a later reward with the same id
/// finds it and pays nothing.
pub proof fn law_reward_paid_once(before: Seq<u64>, max: u32, id: u64, after: Seq<u64>)
    requires
        max > 0,
        after.to_set() == ids_after(before, max, id),
    ensures
        after.contains(id),
{
    assert(after.to_set().contains(id));
}

/// Where a custom reward failed.
#[derive(PartialEq, Eq, Structural, Debug, Clone, Copy)]
pub enum CustomRewardError {
    /// The transfer of the reward failed.
    Transfer,
    /// Staking the transferred reward failed.
    Lock,
}

impl CustomRewardError {
    /// The code that `StakingError::CustomReward` carries for this failure.
    pub open spec fn spec_code(self) -> u8 {
        match self {
            CustomRewardError::Transfer => 0u8,
            CustomRewardError::Lock => 1u8,
        }
    }

    /// The code that `StakingError::CustomReward` carries for this failure.
    pub fn code(&self) -> (r: u8)
        ensures
            r == self.spec_code(),
    {
        match self {
            CustomRewardError::Transfer => 0,
            CustomRewardError::Lock => 1,
        }
    }
}

/// The error of the custom reward at index `i` that failed with `failure`,
/// with the number of rewards distributed before it.
pub fn custom_reward_failure(i: usize, failure: CustomRewardError) -> (r: (StakingError, u32))
    ensures
        r.0 == StakingError::CustomReward(failure.spec_code()),
        r.1 == i as u32,
{
    (StakingError::CustomReward(failure.code()), i as u32)
}

/// Staking and then unlocking the stake once its period has ended gives the
/// staking lock back its former value.
pub proof fn law_stake_then_unlock(locked: u128, staked: u128)
    requires
        locked + staked <= u128::MAX,
    ensures
        ({
            let after: u128 = (locked + staked) as u128;
            (if after >= staked {
                after - staked
            } else {
                0
            }) == locked
        }),
{
}

} // verus!
