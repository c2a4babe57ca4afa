//! Wrapped DOT: DOT staked on the relay chain through the parachain's
//! account, held as EQDOT. The pallet keeps the DOT it holds
//! (`transferable`) and has staked (`staked`), mints and burns EQDOT at the
//! ratio of its DOT to the EQDOT supply, queues withdrawals that wait for
//! unbonding, and keeps its reserve between bounds.
use crate::fixed::{
    eq_checked_from_rational, eq_checked_mul_int, eq_div_spec, eq_mul_spec, eq_one, eq_reciprocal,
    fixed_i64_checked_from_rational, fixed_i64_checked_mul, fixed_i64_from_permill, fits_i64,
    permill_mul, permill_mul_spec, permill_parts, permill_reciprocal_spec,
    permill_saturating_reciprocal_mul, tdiv,
};
use vstd::prelude::*;

verus! {

/// Decimals of DOT on the relay chain.
pub const DOT_DECIMALS: u8 = 10;

/// The pallet's DOT: held, and staked on the relay chain.
#[derive(PartialEq, Eq, Structural, Debug, Clone, Copy)]
pub struct StakingBalance {
    pub transferable: u128,
    pub staked: u128,
}

impl StakingBalance {
    /// All of the pallet's DOT.
    pub fn total(&self) -> (r: u128)
        requires
            self.staked + self.transferable <= u128::MAX,
        ensures
            r == self.staked + self.transferable,
    {
        self.staked + self.transferable
    }
}

/// Errors of the wrapped DOT pallet.
#[derive(PartialEq, Eq, Structural, Debug, Clone, Copy)]
pub enum WrappedDotError {
    NotSupportedAsset,
    InsufficientDeposit,
    InsufficientWithdraw,
    MathError,
    XcmStakingBondExtraFailed,
    XcmStakingUnbondFailed,
    XcmStakingWithdrawUnbondedFailed,
    XcmUnknownAsset,
    XcmBalanceConversionError,
    Overflow,
    DivisionByZero,
}

/// A balance of the relay chain (ten decimals) in the parachain's nine
/// decimals, the last digit dropped.
pub fn balance_from_xcm(x: u128) -> (r: u128)
    ensures
        r == x / 10,
{
    x / 10
}

/// A balance of the parachain in the relay chain's ten decimals; `None`
/// where it exceeds `u128`.
pub fn balance_into_xcm(x: u128) -> (r: Option<u128>)
    ensures
        r == (if x * 10 <= u128::MAX {
            Some((x * 10) as u128)
        } else {
            None
        }),
{
    x.checked_mul(10)
}

/// A chunk of DOT that unbonds at `era`.
#[derive(PartialEq, Eq, Structural, Debug, Clone, Copy)]
pub struct UnlockChunk {
    pub value: u128,
    pub era: u32,
}

/// The relay chain's staking ledger of the parachain's account, as the
/// pallet reads it (balances in relay chain units).
#[derive(Debug, Clone)]
pub struct StakingLedger {
    /// The stash account whose balance is bonded.
    pub stash: [u8; 32],
    /// `active` plus what is unbonding.
    pub total: u128,
    /// What stays bonded in the coming eras.
    pub active: u128,
    /// Chunks that are unbonding, the later eras at the back.
    pub unlocking: Vec<UnlockChunk>,
    /// Eras for which rewards were claimed.
    pub claimed_rewards: Vec<u32>,
}

/// Chunks still unbonding at `era`.
pub open spec fn pending_chunks(s: Seq<UnlockChunk>, era: u32) -> Seq<UnlockChunk>
    decreases s.len(),
{
    if s.len() == 0 {
        s
    } else {
        let p = pending_chunks(s.drop_last(), era);
        if s.last().era > era {
            p.push(s.last())
        } else {
            p
        }
    }
}

/// Sum, saturating, of the chunks unbonded by `era` among the first `n`.
pub open spec fn unlocked_sum(s: Seq<UnlockChunk>, era: u32, n: int) -> int
    decreases n,
{
    if n <= 0 {
        0
    } else {
        let prev = unlocked_sum(s, era, n - 1);
        if s[n - 1].era > era {
            prev
        } else if prev + s[n - 1].value > u128::MAX {
            u128::MAX as int
        } else {
            prev + s[n - 1].value
        }
    }
}

impl StakingLedger {
    /// An empty ledger of `stash`.
    pub fn default_from(stash: [u8; 32]) -> (r: Self)
        ensures
            r.stash == stash,
            r.total == 0,
            r.active == 0,
            r.unlocking@.len() == 0,
            r.claimed_rewards@.len() == 0,
    {
        StakingLedger {
            stash,
            total: 0,
            active: 0,
            unlocking: Vec::new(),
            claimed_rewards: Vec::new(),
        }
    }

    /// Removes the chunks unbonded by `current_era` and returns their sum
    /// (saturating), which the total loses (saturating).
    pub fn consolidate_unlocked(&mut self, current_era: u32) -> (r: u128)
        ensures
            r == unlocked_sum(old(self).unlocking@, current_era, old(self).unlocking@.len() as int),
            final(self).unlocking@ == pending_chunks(old(self).unlocking@, current_era),
            final(self).total == (if old(self).total >= r {
                old(self).total - r
            } else {
                0
            }),
            final(self).active == old(self).active,
            final(self).stash == old(self).stash,
            final(self).claimed_rewards@ == old(self).claimed_rewards@,
    {
        let ghost s = self.unlocking@;
        let mut kept: Vec<UnlockChunk> = Vec::new();
        let mut delta: u128 = 0;
        let mut k: usize = 0;
        while k < self.unlocking.len()
            invariant
                s == self.unlocking@,
                k <= s.len(),
                kept@ == pending_chunks(s.take(k as int), current_era),
                delta == unlocked_sum(s, current_era, k as int),
            decreases s.len() - k,
        {
            let c = self.unlocking[k];
            proof {
                assert(s.take(k + 1).drop_last() =~= s.take(k as int));
                assert(s.take(k + 1).last() == c);
            }
            if c.era > current_era {
                kept.push(c);
            } else {
                delta = delta.saturating_add(c.value);
            }
            k = k + 1;
        }
        proof {
            assert(s.take(k as int) =~= s);
        }
        self.unlocking = kept;
        self.total = self.total.saturating_sub(delta);
        delta
    }
}

/// The EQDOT supply: what is held less what is owed. The subtraction is
/// unchecked, so the debt must not exceed the holdings.
pub fn wrapped_dot_total_supply(collateral: u128, debt: u128) -> (r: u128)
    requires
        debt <= collateral,
    ensures
        r == collateral - debt,
{
    collateral - debt
}

/// DOT per EQDOT as an `EqFixedU128`: the pallet's DOT over the supply.
pub open spec fn ratio_spec(total: int, supply: int) -> Option<int> {
    if supply != 0 && eq_div_spec(total, supply) <= u128::MAX {
        Some(eq_div_spec(total, supply))
    } else {
        None
    }
}

/// DOT per EQDOT as an `EqFixedU128`; `None` for an empty supply.
pub fn dot_to_wrapped_dot_ratio(balance: &StakingBalance, supply: u128) -> (r: Option<u128>)
    requires
        balance.staked + balance.transferable <= u128::MAX,
    ensures
        r == (match ratio_spec(balance.staked + balance.transferable, supply as int) {
            Some(v) => Some(v as u128),
            None => None,
        }),
{
    eq_checked_from_rational(balance.total(), supply)
}

/// The EQDOT minted for a deposit of DOT: the deposit over the ratio.
pub open spec fn mint_spec(total: int, supply: int, deposit: int) -> Option<int> {
    match ratio_spec(total, supply) {
        None => None,
        Some(r) => if r == 0 {
            None
        } else {
            let rec = eq_div_spec(eq_one(), r);
            if eq_mul_spec(rec, deposit) <= u128::MAX {
                Some(eq_mul_spec(rec, deposit))
            } else {
                None
            }
        },
    }
}

/// The EQDOT minted for a deposit: `deposit * (supply / DOT)`, with the
/// ratio and its reciprocal rounded down.
pub fn calc_mint_wrapped_amount(balance: &StakingBalance, supply: u128, deposit: u128) -> (r: Result<
    u128,
    WrappedDotError,
>)
    requires
        balance.staked + balance.transferable <= u128::MAX,
    ensures
        r == (match mint_spec(balance.staked + balance.transferable, supply as int, deposit as int) {
            Some(v) => Ok::<u128, WrappedDotError>(v as u128),
            None => Err(WrappedDotError::MathError),
        }),
{
    let ratio = match dot_to_wrapped_dot_ratio(balance, supply) {
        Some(r) => r,
        None => {
            return Err(WrappedDotError::MathError);
        },
    };
    let rec = match eq_reciprocal(ratio) {
        Some(r) => r,
        None => {
            return Err(WrappedDotError::MathError);
        },
    };
    match eq_checked_mul_int(rec, deposit) {
        Some(v) => Ok(v),
        None => Err(WrappedDotError::MathError),
    }
}

/// The price coefficient: DOT per EQDOT (a `FixedI64`) times the withdraw
/// fee factor, `None` where the ratio cannot be formed.
pub open spec fn price_coeff_spec(total: int, supply: int, withdraw_fee: u32) -> Option<int> {
    if supply != 0 && eq_div_spec(total, supply) <= i64::MAX {
        Some(tdiv(eq_div_spec(total, supply) * (permill_parts(withdraw_fee as int) * 1000), eq_one()))
    } else {
        None
    }
}

/// The price coefficient, as an `EqFixedU128`: DOT per EQDOT times the
/// withdraw fee factor.
pub fn get_price_coeff(balance: &StakingBalance, supply: u128, withdraw_fee: u32) -> (r: Option<
    u128,
>)
    requires
        balance.staked + balance.transferable <= u128::MAX,
    ensures
        r == (match price_coeff_spec(
            balance.staked + balance.transferable,
            supply as int,
            withdraw_fee,
        ) {
            Some(v) => Some(v as u128),
            None => None,
        }),
        price_coeff_spec(balance.staked + balance.transferable, supply as int, withdraw_fee) matches Some(
            v,
        ) ==> 0 <= v <= i64::MAX,
{
    let ratio = match fixed_i64_checked_from_rational(balance.total(), supply) {
        Some(r) => r,
        None => {
            return None;
        },
    };
    let fee = fixed_i64_from_permill(withdraw_fee);
    proof {
        let p = permill_parts(withdraw_fee as int) * 1000;
        assert(0 <= ratio * p <= ratio * 1_000_000_000) by (nonlinear_arith)
            requires
                ratio >= 0,
                0 <= p <= 1_000_000_000,
        ;
        assert(ratio * 1_000_000_000 / 1_000_000_000 == ratio) by (nonlinear_arith);
        assert(0 <= (ratio * p) / 1_000_000_000 <= ratio) by (nonlinear_arith)
            requires
                0 <= ratio * p <= ratio * 1_000_000_000,
        ;
        assert(fits_i64(tdiv(ratio * fee, eq_one())));
    }
    match fixed_i64_checked_mul(ratio, fee) {
        Some(c) => Some(c as u128),
        None => None,
    }
}

/// The EQDOT burnt for a withdrawal of DOT: the amount over the price
/// coefficient.
pub open spec fn burn_spec(total: int, supply: int, fee: u32, amount: int) -> Result<
    int,
    WrappedDotError,
> {
    match price_coeff_spec(total, supply, fee) {
        None => Err(WrappedDotError::Overflow),
        Some(c) => if c == 0 {
            Err(WrappedDotError::DivisionByZero)
        } else if eq_mul_spec(eq_div_spec(eq_one(), c), amount) <= u128::MAX {
            Ok(eq_mul_spec(eq_div_spec(eq_one(), c), amount))
        } else {
            Err(WrappedDotError::Overflow)
        },
    }
}

/// The DOT paid out for burning EQDOT: the amount times the price coefficient.
pub open spec fn deposit_spec(total: int, supply: int, fee: u32, amount: int) -> Result<
    int,
    WrappedDotError,
> {
    match price_coeff_spec(total, supply, fee) {
        None => Err(WrappedDotError::Overflow),
        Some(c) => if eq_mul_spec(c, amount) <= u128::MAX {
            Ok(eq_mul_spec(c, amount))
        } else {
            Err(WrappedDotError::Overflow)
        },
    }
}

/// The EQDOT burnt for a withdrawal of `amount` DOT.
pub fn calc_burn_wrapped_amount(balance: &StakingBalance, supply: u128, fee: u32, amount: u128) -> (r:
    Result<u128, WrappedDotError>)
    requires
        balance.staked + balance.transferable <= u128::MAX,
    ensures
        r == (match burn_spec(balance.staked + balance.transferable, supply as int, fee, amount as int) {
            Ok(v) => Ok::<u128, WrappedDotError>(v as u128),
            Err(e) => Err(e),
        }),
{
    let c = match get_price_coeff(balance, supply, fee) {
        Some(c) => c,
        None => {
            return Err(WrappedDotError::Overflow);
        },
    };
    let rec = match eq_reciprocal(c) {
        Some(r) => r,
        None => {
            return Err(WrappedDotError::DivisionByZero);
        },
    };
    match eq_checked_mul_int(rec, amount) {
        Some(v) => Ok(v),
        None => Err(WrappedDotError::Overflow),
    }
}

/// The DOT paid out for burning `amount` EQDOT.
pub fn calc_deposit_amount(balance: &StakingBalance, supply: u128, fee: u32, amount: u128) -> (r:
    Result<u128, WrappedDotError>)
    requires
        balance.staked + balance.transferable <= u128::MAX,
    ensures
        r == (match deposit_spec(balance.staked + balance.transferable, supply as int, fee, amount as int) {
            Ok(v) => Ok::<u128, WrappedDotError>(v as u128),
            Err(e) => Err(e),
        }),
{
    let c = match get_price_coeff(balance, supply, fee) {
        Some(c) => c,
        None => {
            return Err(WrappedDotError::Overflow);
        },
    };
    match eq_checked_mul_int(c, amount) {
        Some(v) => Ok(v),
        None => Err(WrappedDotError::Overflow),
    }
}

/// What a withdrawal fixes: the DOT to receive, or the EQDOT to burn.
#[derive(PartialEq, Eq, Structural, Debug, Clone, Copy)]
pub enum WithdrawAmount {
    Dot(u128),
    EqDot(u128),
}

/// Completes a withdrawal to the pair (DOT withdrawn, EQDOT burnt).
pub fn get_withdraw_and_burn_amount(
    balance: &StakingBalance,
    supply: u128,
    fee: u32,
    amount: WithdrawAmount,
) -> (r: Result<(u128, u128), WrappedDotError>)
    requires
        balance.staked + balance.transferable <= u128::MAX,
    ensures
        r == (match amount {
            WithdrawAmount::Dot(w) => match burn_spec(
                balance.staked + balance.transferable,
                supply as int,
                fee,
                w as int,
            ) {
                Ok(b) => Ok::<(u128, u128), WrappedDotError>((w, b as u128)),
                Err(e) => Err(e),
            },
            WithdrawAmount::EqDot(b) => match deposit_spec(
                balance.staked + balance.transferable,
                supply as int,
                fee,
                b as int,
            ) {
                Ok(w) => Ok::<(u128, u128), WrappedDotError>((w as u128, b)),
                Err(e) => Err(e),
            },
        }),
{
    match amount {
        WithdrawAmount::Dot(w) => {
            match calc_burn_wrapped_amount(balance, supply, fee, w) {
                Ok(b) => Ok((w, b)),
                Err(e) => Err(e),
            }
        },
        WithdrawAmount::EqDot(b) => {
            match calc_deposit_amount(balance, supply, fee, b) {
                Ok(w) => Ok((w, b)),
                Err(e) => Err(e),
            }
        },
    }
}

/// How a withdrawal is served.
#[derive(PartialEq, Eq, Structural, Debug, Clone, Copy)]
pub enum WithdrawPlan {
    /// Paid at once from the held DOT: `withdraw` DOT out, `burn` EQDOT burnt.
    Immediate { withdraw: u128, burn: u128 },
    /// Queued: `unbond` DOT is unbonded on the relay chain, and the account's
    /// `burn` EQDOT goes to the pallet until the queue pays `unbond`.
    Queued { unbond: u128, burn: u128 },
}

/// Plans a withdrawal: at least the minimal deposit must be withdrawn; it
/// is paid at once where the held DOT covers it, else queued without the
/// fee: a DOT withdrawal burns the EQDOT times the fee, an EQDOT withdrawal
/// pays the DOT over the fee.
pub fn withdraw(
    balance: &StakingBalance,
    supply: u128,
    fee: u32,
    min_deposit: u128,
    amount: WithdrawAmount,
) -> (r: Result<WithdrawPlan, WrappedDotError>)
    requires
        balance.staked + balance.transferable <= u128::MAX,
    ensures
        ({
            let t = balance.staked + balance.transferable;
            match amount {
                WithdrawAmount::Dot(w) => match burn_spec(t, supply as int, fee, w as int) {
                    Err(e) => r == Err::<WithdrawPlan, WrappedDotError>(e),
                    Ok(b) => if w < min_deposit {
                        r == Err::<WithdrawPlan, WrappedDotError>(
                            WrappedDotError::InsufficientWithdraw,
                        )
                    } else if balance.transferable >= w {
                        r == Ok::<WithdrawPlan, WrappedDotError>(
                            WithdrawPlan::Immediate { withdraw: w, burn: b as u128 },
                        )
                    } else {
                        r == Ok::<WithdrawPlan, WrappedDotError>(
                            WithdrawPlan::Queued {
                                unbond: w,
                                burn: permill_mul_spec(permill_parts(fee as int), b) as u128,
                            },
                        )
                    },
                },
                WithdrawAmount::EqDot(b) => match deposit_spec(t, supply as int, fee, b as int) {
                    Err(e) => r == Err::<WithdrawPlan, WrappedDotError>(e),
                    Ok(w) => if w < min_deposit {
                        r == Err::<WithdrawPlan, WrappedDotError>(
                            WrappedDotError::InsufficientWithdraw,
                        )
                    } else if balance.transferable >= w {
                        r == Ok::<WithdrawPlan, WrappedDotError>(
                            WithdrawPlan::Immediate { withdraw: w as u128, burn: b },
                        )
                    } else {
                        r == Ok::<WithdrawPlan, WrappedDotError>(
                            WithdrawPlan::Queued {
                                unbond: permill_reciprocal_spec(permill_parts(fee as int), w) as u128,
                                burn: b,
                            },
                        )
                    },
                },
            }
        }),
{
    let (w, b) = match get_withdraw_and_burn_amount(balance, supply, fee, amount) {
        Ok(p) => p,
        Err(e) => {
            return Err(e);
        },
    };
    if w < min_deposit {
        return Err(WrappedDotError::InsufficientWithdraw);
    }
    if balance.transferable >= w {
        return Ok(WithdrawPlan::Immediate { withdraw: w, burn: b });
    }
    match amount {
        WithdrawAmount::Dot(_) => Ok(WithdrawPlan::Queued { unbond: w, burn: permill_mul(fee, b) }),
        WithdrawAmount::EqDot(_) => {
            proof {
                if fee == 0 {
                    let total = balance.staked + balance.transferable;
                    let q = eq_div_spec(total, supply as int);
                    assert(q * 0 == 0);
                    assert(tdiv(0, eq_one()) == 0);
                    assert(eq_mul_spec(0, b as int) == 0);
                }
            }
            Ok(WithdrawPlan::Queued { unbond: permill_saturating_reciprocal_mul(fee, w), burn: b })
        },
    }
}

/// Checks a deposit of `amount` DOT and returns the EQDOT to mint; the
/// pallet then holds the amount more.
pub fn deposit(balance: &StakingBalance, supply: u128, min_deposit: u128, amount: u128) -> (r: Result<
    u128,
    WrappedDotError,
>)
    requires
        balance.staked + balance.transferable <= u128::MAX,
    ensures
        amount < min_deposit ==> r == Err::<u128, WrappedDotError>(
            WrappedDotError::InsufficientDeposit,
        ),
        amount >= min_deposit ==> r == (match mint_spec(
            balance.staked + balance.transferable,
            supply as int,
            amount as int,
        ) {
            Some(v) => Ok::<u128, WrappedDotError>(v as u128),
            None => Err(WrappedDotError::MathError),
        }),
{
    if amount < min_deposit {
        return Err(WrappedDotError::InsufficientDeposit);
    }
    calc_mint_wrapped_amount(balance, supply, amount)
}

/// The relay chain's ledger can be taken over when its unbonding total
/// (`total - active`, in parachain units) is the pallet's and its total
/// covers what the pallet has staked.
pub fn ledger_ready_to_sync(ledger: &StakingLedger, total_unlocking: u128, staked: u128) -> (r: bool)
    requires
        ledger.active <= ledger.total,
    ensures
        r == ((ledger.total - ledger.active) / 10 == total_unlocking && ledger.total / 10 >= staked),
{
    let unlocking = balance_from_xcm(ledger.total - ledger.active);
    let total = balance_from_xcm(ledger.total);
    unlocking == total_unlocking && total >= staked
}

/// What taking over the relay chain's ledger does.
#[derive(PartialEq, Eq, Structural, Debug, Clone, Copy)]
pub struct LedgerSync {
    /// DOT unbonded by now, to withdraw from the relay chain (in parachain units).
    pub withdraw_unbonded: Option<u128>,
    /// The era to record as the last withdrawal era.
    pub last_withdraw_era: u32,
    /// The pallet's DOT afterwards.
    pub balance: StakingBalance,
}

/// Takes over the relay chain's ledger at `current_era`: in a new era the
/// chunks unbonded by then are withdrawn (they become held DOT); the staked
/// amount then rises to the ledger's total where that is higher.
pub fn update_relay_ledger(
    balance: &StakingBalance,
    current_era: u32,
    last_withdraw_era: u32,
    ledger: &mut StakingLedger,
) -> (r: LedgerSync)
    ensures
        current_era <= last_withdraw_era ==> final(ledger).unlocking@ == old(ledger).unlocking@
            && final(ledger).total == old(ledger).total,
        current_era > last_withdraw_era ==> final(ledger).unlocking@ == pending_chunks(
            old(ledger).unlocking@,
            current_era,
        ),
        current_era > last_withdraw_era ==> ({
            let d = unlocked_sum(
                old(ledger).unlocking@,
                current_era,
                old(ledger).unlocking@.len() as int,
            );
            final(ledger).total == (if old(ledger).total >= d {
                old(ledger).total - d
            } else {
                0
            })
        }),
        final(ledger).active == old(ledger).active,
        final(ledger).stash == old(ledger).stash,
        final(ledger).claimed_rewards@ == old(ledger).claimed_rewards@,
        ({
            let delta: int = if current_era > last_withdraw_era {
                unlocked_sum(old(ledger).unlocking@, current_era, old(ledger).unlocking@.len() as int)
            } else {
                0
            };
            let unlocked: int = delta / 10;
            let transferable: int = if delta != 0 && balance.transferable + unlocked > u128::MAX {
                u128::MAX as int
            } else if delta != 0 {
                balance.transferable + unlocked
            } else {
                balance.transferable as int
            };
            let staked0: int = if delta != 0 && balance.staked < unlocked {
                0
            } else if delta != 0 {
                balance.staked - unlocked
            } else {
                balance.staked as int
            };
            let ledger_total: int = final(ledger).total as int / 10;
            &&& r.withdraw_unbonded == (if delta != 0 {
                Some(unlocked as u128)
            } else {
                None
            })
            &&& r.last_withdraw_era == (if current_era > last_withdraw_era {
                current_era
            } else {
                last_withdraw_era
            })
            &&& r.balance.transferable == transferable
            &&& r.balance.staked == (if ledger_total > staked0 {
                ledger_total
            } else {
                staked0
            })
        }),
{
    let mut b = *balance;
    let mut withdraw_unbonded: Option<u128> = None;
    let mut era = last_withdraw_era;
    if current_era > last_withdraw_era {
        let unlocking = ledger.consolidate_unlocked(current_era);
        if unlocking != 0 {
            let unlocked = balance_from_xcm(unlocking);
            withdraw_unbonded = Some(unlocked);
            b.transferable = b.transferable.saturating_add(unlocked);
            b.staked = b.staked.saturating_sub(unlocked);
        }
        era = current_era;
    }
    let ledger_total = balance_from_xcm(ledger.total);
    if ledger_total > b.staked {
        b.staked = ledger_total;
    }
    LedgerSync { withdraw_unbonded, last_withdraw_era: era, balance: b }
}

/// Sum of the withdrawals of the first `n` queue entries.
pub open spec fn queue_sum(q: Seq<(u64, u128, u128)>, n: int, field: int) -> int
    decreases n,
{
    if n <= 0 {
        0
    } else {
        queue_sum(q, n - 1, field) + if field == 1 {
            q[n - 1].1 as int
        } else {
            q[n - 1].2 as int
        }
    }
}

/// Number of queue entries paid from `transferable` in order, stopping at
/// the first that it no longer covers.
pub open spec fn paid_count(q: Seq<(u64, u128, u128)>, transferable: int, k: int) -> int
    decreases q.len() - k,
{
    if k < 0 || k >= q.len() || transferable < q[k].1 {
        k
    } else {
        paid_count(q, transferable - q[k].1, k + 1)
    }
}

proof fn lemma_paid_count(q: Seq<(u64, u128, u128)>, transferable: int, k: int)
    requires
        0 <= k <= q.len(),
    ensures
        k <= paid_count(q, transferable, k) <= q.len(),
    decreases q.len() - k,
{
    if k < q.len() && transferable >= q[k].1 {
        lemma_paid_count(q, transferable - q[k].1, k + 1);
    }
}

/// The queue's payout: how many entries are paid, the EQDOT they burn and
/// the DOT left held.
#[derive(PartialEq, Eq, Structural, Debug, Clone, Copy)]
pub struct QueuePayout {
    pub paid: usize,
    pub burnt: u128,
    pub transferable: u128,
}

/// Pays the withdrawal queue `(account, DOT, EQDOT)` in order from the held
/// DOT, stopping at the first entry that it does not cover. The paid
/// entries leave the queue and their EQDOT is burnt from the pallet; the
/// EQDOT of the paid entries must fit in `u128`.
pub fn clear_withdraw_queue(transferable: u128, queue: &Vec<(u64, u128, u128)>) -> (r: QueuePayout)
    requires
        queue_sum(queue@, paid_count(queue@, transferable as int, 0), 2) <= u128::MAX,
    ensures
        r.paid == paid_count(queue@, transferable as int, 0),
        r.burnt == queue_sum(queue@, r.paid as int, 2),
        r.transferable == transferable - queue_sum(queue@, r.paid as int, 1),
{
    let mut t = transferable;
    let mut burnt: u128 = 0;
    let mut k: usize = 0;
    proof {
        lemma_paid_count(queue@, transferable as int, 0);
    }
    while k < queue.len() && t >= queue[k].1
        invariant
            k <= paid_count(queue@, transferable as int, 0) <= queue@.len(),
            queue_sum(queue@, paid_count(queue@, transferable as int, 0), 2) <= u128::MAX,
            paid_count(queue@, t as int, k as int) == paid_count(queue@, transferable as int, 0),
            burnt == queue_sum(queue@, k as int, 2),
            t == transferable - queue_sum(queue@, k as int, 1),
        decreases queue@.len() - k,
    {
        proof {
            lemma_paid_count(queue@, t - queue@[k as int].1, k + 1);
            lemma_queue_sum_mono(queue@, k + 1, paid_count(queue@, transferable as int, 0));
        }
        burnt = burnt + queue[k].2;
        t = t - queue[k].1;
        k = k + 1;
    }
    QueuePayout { paid: k, burnt, transferable: t }
}

proof fn lemma_queue_sum_mono(q: Seq<(u64, u128, u128)>, m: int, n: int)
    requires
        0 <= m <= n,
    ensures
        queue_sum(q, m, 2) <= queue_sum(q, n, 2),
    decreases n - m,
{
    if m < n {
        lemma_queue_sum_mono(q, m, n - 1);
    }
}

/// Sum of the withdrawals of the queue, saturating.
pub open spec fn queue_withdraw_total(q: Seq<(u64, u128, u128)>, n: int) -> int
    decreases n,
{
    if n <= 0 {
        0
    } else {
        let s = queue_withdraw_total(q, n - 1) + q[n - 1].1;
        if s > u128::MAX {
            u128::MAX as int
        } else {
            s
        }
    }
}

/// The withdrawals that the rebalancing sets aside are the DOT that the
/// queue's entries are owed (their second field), summed and saturating at
/// `u128::MAX`.
pub proof fn law_queue_withdrawals_are_dot(q: Seq<(u64, u128, u128)>, n: int)
    requires
        0 <= n <= q.len(),
    ensures
        queue_withdraw_total(q, n) == (if queue_sum(q, n, 1) > u128::MAX {
            u128::MAX as int
        } else {
            queue_sum(q, n, 1)
        }),
    decreases n,
{
    if n > 0 {
        law_queue_withdrawals_are_dot(q, n - 1);
        assert(queue_sum(q, n - 1, 1) >= 0) by {
            lemma_queue_sum_nonneg(q, n - 1);
        }
    }
}

proof fn lemma_queue_sum_nonneg(q: Seq<(u64, u128, u128)>, n: int)
    ensures
        queue_sum(q, n, 1) >= 0,
    decreases n,
{
    if n > 0 {
        lemma_queue_sum_nonneg(q, n - 1);
    }
}

/// The withdrawals set aside depend on the DOT owed alone: two queues whose
/// entries are owed the same DOT set aside the same, whatever their
/// accounts and the EQDOT they burn.
pub proof fn law_queue_withdrawals_ignore_eqdot(
    q1: Seq<(u64, u128, u128)>,
    q2: Seq<(u64, u128, u128)>,
    n: int,
)
    requires
        0 <= n <= q1.len(),
        n <= q2.len(),
        forall|i: int| 0 <= i < n ==> (#[trigger] q1[i]).1 == q2[i].1,
    ensures
        queue_withdraw_total(q1, n) == queue_withdraw_total(q2, n),
    decreases n,
{
    if n > 0 {
        law_queue_withdrawals_ignore_eqdot(q1, q2, n - 1);
        assert(q1[n - 1].1 == q2[n - 1].1);
    }
}

/// The rebalancing of the reserve.
#[derive(PartialEq, Eq, Structural, Debug, Clone, Copy)]
pub enum Rebalance {
    /// Bond this much more on the relay chain.
    BondExtra(u128),
    /// Unbond this much on the relay chain.
    Unbond(u128),
    /// Nothing to do.
    Keep,
}

/// The amounts of a rebalancing stay within `u128`: the total, the reserve
/// with the unbonding amount, and the differences taken.
pub open spec fn rebalance_ok(
    b: StakingBalance,
    max_reserve: u32,
    target_reserve: u32,
    min_reserve: u32,
    to_withdraw: int,
    total_unlocking: u128,
) -> bool {
    let total = b.transferable + b.staked;
    &&& total <= u128::MAX
    &&& b.transferable > permill_mul_spec(permill_parts(max_reserve as int), total) ==> b.transferable
        >= permill_mul_spec(permill_parts(target_reserve as int), total)
    &&& b.transferable <= permill_mul_spec(permill_parts(max_reserve as int), total) ==> {
        &&& b.transferable + total_unlocking <= u128::MAX
        &&& b.transferable + total_unlocking >= to_withdraw
        &&& total >= to_withdraw
        &&& (b.transferable + total_unlocking - to_withdraw < permill_mul_spec(
            permill_parts(min_reserve as int),
            total - to_withdraw,
        ) ==> permill_mul_spec(permill_parts(target_reserve as int), total - to_withdraw)
            >= b.transferable + total_unlocking - to_withdraw)
    }
}

/// Keeps the held DOT (the reserve) between bounds: above the maximum share
/// of the total, the excess over the target share is bonded; otherwise,
/// where the held and unbonding DOT less the queued withdrawals fall below
/// the minimum share of the total less those withdrawals, the shortfall to
/// the target share is unbonded.
pub fn rebalance_staking(
    b: &StakingBalance,
    max_reserve: u32,
    target_reserve: u32,
    min_reserve: u32,
    queue: &Vec<(u64, u128, u128)>,
    total_unlocking: u128,
) -> (r: Rebalance)
    requires
        rebalance_ok(
            *b,
            max_reserve,
            target_reserve,
            min_reserve,
            queue_withdraw_total(queue@, queue@.len() as int),
            total_unlocking,
        ),
    ensures
        ({
            let total = b.transferable + b.staked;
            let w = queue_withdraw_total(queue@, queue@.len() as int);
            let ut = b.transferable + total_unlocking - w;
            if b.transferable > permill_mul_spec(permill_parts(max_reserve as int), total) {
                r == Rebalance::BondExtra(
                    (b.transferable - permill_mul_spec(permill_parts(target_reserve as int), total))
                        as u128,
                )
            } else if ut < permill_mul_spec(permill_parts(min_reserve as int), total - w) {
                r == Rebalance::Unbond(
                    (permill_mul_spec(permill_parts(target_reserve as int), total - w) - ut) as u128,
                )
            } else {
                r == Rebalance::Keep
            }
        }),
{
    let total = b.transferable + b.staked;
    if b.transferable > permill_mul(max_reserve, total) {
        return Rebalance::BondExtra(b.transferable - permill_mul(target_reserve, total));
    }
    let mut to_withdraw: u128 = 0;
    let mut k: usize = 0;
    while k < queue.len()
        invariant
            k <= queue@.len(),
            to_withdraw == queue_withdraw_total(queue@, k as int),
        decreases queue@.len() - k,
    {
        to_withdraw = to_withdraw.saturating_add(queue[k].1);
        k = k + 1;
    }
    let ut = b.transferable + total_unlocking - to_withdraw;
    let total_without = total - to_withdraw;
    if ut < permill_mul(min_reserve, total_without) {
        Rebalance::Unbond(permill_mul(target_reserve, total_without) - ut)
    } else {
        Rebalance::Keep
    }
}

/// The pallet's DOT after a rebalancing.
pub open spec fn rebalanced(b: StakingBalance, action: Rebalance) -> StakingBalance {
    match action {
        Rebalance::BondExtra(d) => StakingBalance {
            transferable: (if b.transferable >= d {
                b.transferable - d
            } else {
                0
            }) as u128,
            staked: (if b.staked + d > u128::MAX {
                u128::MAX as int
            } else {
                b.staked + d
            }) as u128,
        },
        _ => b,
    }
}

/// The pallet's DOT after a rebalancing whose relay chain call was sent: a
/// bond moves the amount from held to staked; an unbond changes neither
/// (it counts as unbonding).
pub fn apply_rebalance(b: &StakingBalance, action: Rebalance) -> (r: StakingBalance)
    ensures
        r == rebalanced(*b, action),
{
    match action {
        Rebalance::BondExtra(d) => StakingBalance {
            transferable: b.transferable.saturating_sub(d),
            staked: b.staked.saturating_add(d),
        },
        _ => *b,
    }
}

/// Bonding moves DOT from held to staked: the pallet's total stays the same.
pub proof fn law_bond_keeps_total(b: StakingBalance, d: u128)
    requires
        d <= b.transferable,
        b.staked + b.transferable <= u128::MAX,
    ensures
        rebalanced(b, Rebalance::BondExtra(d)).transferable + rebalanced(
            b,
            Rebalance::BondExtra(d),
        ).staked == b.transferable + b.staked,
{
}

/// Whether block `n` runs the staking routine (paying the queue and
/// rebalancing): every `periodicity` blocks.
pub fn staking_routine_due(n: u64, periodicity: u64) -> (r: bool)
    requires
        periodicity > 0,
    ensures
        r == (n % periodicity == 0),
{
    n % periodicity == 0
}

/// The DOT unbonding after an unbond request of `value` was sent.
pub fn unbond_recorded(total_unlocking: u128, value: u128) -> (r: u128)
    ensures
        r == (if total_unlocking + value > u128::MAX {
            u128::MAX as int
        } else {
            total_unlocking + value
        }),
{
    total_unlocking.saturating_add(value)
}

/// The DOT unbonding after `unlocked` was withdrawn.
pub fn withdraw_unbond_recorded(total_unlocking: u128, unlocked: u128) -> (r: u128)
    ensures
        r == (if total_unlocking >= unlocked {
            total_unlocking - unlocked
        } else {
            0
        }),
{
    total_unlocking.saturating_sub(unlocked)
}

/// Depositing DOT and burning at once the EQDOT it minted never pays out
/// more DOT than was deposited: the ratio, its reciprocal and both
/// conversions round down, and the withdraw fee takes its share.
pub proof fn law_no_gain_from_deposit_and_withdraw(total: int, supply: int, fee: u32, deposit: int)
    requires
        total >= 0,
        supply >= 0,
        deposit >= 0,
        mint_spec(total, supply, deposit) is Some,
        price_coeff_spec(total, supply, fee) is Some,
    ensures
        deposit_spec(total, supply, fee, mint_spec(total, supply, deposit)->0) matches Ok(w) ==> w
            <= deposit,
{
    let q = eq_div_spec(total, supply);
    let rec = eq_div_spec(eq_one(), q);
    let m = mint_spec(total, supply, deposit)->0;
    let f = permill_parts(fee as int) * 1000;
    assert(supply != 0);
    assert(q >= 0) by (nonlinear_arith)
        requires
            q == total * 1_000_000_000 / supply,
            total >= 0,
            supply > 0,
    ;
    assert(q != 0);
    assert(0 <= f <= 1_000_000_000);
    let c = tdiv(q * f, eq_one());
    assert(q * f >= 0) by (nonlinear_arith)
        requires
            q >= 0,
            f >= 0,
    ;
    assert(c == q * f / 1_000_000_000);
    assert(0 <= c <= q) by (nonlinear_arith)
        requires
            c == q * f / 1_000_000_000,
            q >= 0,
            0 <= f <= 1_000_000_000,
    ;
    assert(rec == 1_000_000_000_000_000_000int / q);
    assert(rec * q <= 1_000_000_000_000_000_000) by (nonlinear_arith)
        requires
            rec == 1_000_000_000_000_000_000int / q,
            q > 0,
    ;
    assert(rec >= 0) by (nonlinear_arith)
        requires
            rec == 1_000_000_000_000_000_000int / q,
            q > 0,
    ;
    assert(m == rec * deposit / 1_000_000_000);
    assert(m * 1_000_000_000 <= rec * deposit) by (nonlinear_arith)
        requires
            m == rec * deposit / 1_000_000_000,
            rec >= 0,
            deposit >= 0,
    ;
    assert(m >= 0) by (nonlinear_arith)
        requires
            m == rec * deposit / 1_000_000_000,
            rec >= 0,
            deposit >= 0,
    ;
    assert(q * m * 1_000_000_000 <= 1_000_000_000_000_000_000int * deposit) by (nonlinear_arith)
        requires
            m * 1_000_000_000 <= rec * deposit,
            rec * q <= 1_000_000_000_000_000_000int,
            q >= 0,
            deposit >= 0,
            rec >= 0,
    ;
    assert(c * m <= 1_000_000_000 * deposit) by (nonlinear_arith)
        requires
            q * m * 1_000_000_000 <= 1_000_000_000_000_000_000int * deposit,
            0 <= c <= q,
            m >= 0,
    ;
    assert(c * m / 1_000_000_000 <= deposit) by (nonlinear_arith)
        requires
            c * m <= 1_000_000_000 * deposit,
            c * m >= 0,
    ;
    assert(c * m >= 0) by (nonlinear_arith)
        requires
            c >= 0,
            m >= 0,
    ;
}

/// An amount for a relay chain call, in the relay chain's units.
pub fn xcm_amount(value: u128) -> (r: Result<u128, WrappedDotError>)
    ensures
        value * 10 <= u128::MAX ==> r == Ok::<u128, WrappedDotError>((value * 10) as u128),
        value * 10 > u128::MAX ==> r == Err::<u128, WrappedDotError>(
            WrappedDotError::XcmBalanceConversionError,
        ),
{
    match balance_into_xcm(value) {
        Some(x) => Ok(x),
        None => Err(WrappedDotError::XcmBalanceConversionError),
    }
}

/// Initializes the staking: the bond to send to the relay chain (in its
/// units) and the pallet's DOT, `transferable` held and `bond` staked.
pub fn initialize(transferable: u128, bond: u128) -> (r: Result<(u128, StakingBalance), WrappedDotError>)
    ensures
        bond * 10 <= u128::MAX ==> r == Ok::<(u128, StakingBalance), WrappedDotError>(
            ((bond * 10) as u128, StakingBalance { transferable, staked: bond }),
        ),
        bond * 10 > u128::MAX ==> r == Err::<(u128, StakingBalance), WrappedDotError>(
            WrappedDotError::XcmBalanceConversionError,
        ),
{
    let x = xcm_amount(bond)?;
    Ok((x, StakingBalance { transferable, staked: bond }))
}

} // verus!
