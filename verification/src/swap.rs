//! Swaps of EQ for Q: the swap configuration, its validation, and what a
//! swap gives: `amount * ratio` of Q, of which a share is vested.
use crate::balance::{sub_balance_spec, SignedBalance};
use crate::fixed::{eq_checked_mul_int, eq_mul_spec, percent_mul_floor};
use vstd::prelude::*;

verus! {

/// Configuration of the swaps.
#[derive(PartialEq, Eq, Structural, Debug, Clone, Copy)]
pub struct SwapConfiguration {
    pub enabled: bool,
    /// Least amount of EQ of a swap.
    pub min_amount: u128,
    /// Most Q that one account may receive.
    pub max_q_amount: u128,
    /// Q per EQ, an `EqFixedU128` inner value.
    pub eq_to_q_ratio: u128,
    /// Vested share of the Q, in percent.
    pub vesting_share: u8,
    pub vesting_starting_block: u64,
    pub vesting_duration_blocks: u128,
}

impl Default for SwapConfiguration {
    fn default() -> (r: Self)
        ensures
            r == (SwapConfiguration {
                enabled: false,
                min_amount: 0,
                max_q_amount: 0,
                eq_to_q_ratio: 0,
                vesting_share: 0,
                vesting_starting_block: 0,
                vesting_duration_blocks: 0,
            }),
    {
        SwapConfiguration {
            enabled: false,
            min_amount: 0,
            max_q_amount: 0,
            eq_to_q_ratio: 0,
            vesting_share: 0,
            vesting_starting_block: 0,
            vesting_duration_blocks: 0,
        }
    }
}

/// Errors of the swaps.
#[derive(PartialEq, Eq, Structural, Debug, Clone, Copy)]
pub enum SwapError {
    SwapsAreDisabled,
    InvalidConfiguration,
    NotEnoughBalance,
    AmountTooSmall,
    QAmountExceeded,
    Underflow,
    Overflow,
}

/// Why a swap transaction is refused before dispatch.
#[derive(PartialEq, Eq, Structural, Debug, Clone, Copy)]
pub enum SwapValidityError {
    SwapsAreDisabled,
    InvalidConfiguration,
    NotEnoughBalance,
    AmountTooSmall,
    QAmountExceeded,
}

impl SwapValidityError {
    /// The code of the custom transaction validity error.
    pub fn code(&self) -> (r: u8)
        ensures
            r == (match *self {
                SwapValidityError::SwapsAreDisabled => 1u8,
                SwapValidityError::InvalidConfiguration => 2u8,
                SwapValidityError::NotEnoughBalance => 3u8,
                SwapValidityError::AmountTooSmall => 4u8,
                SwapValidityError::QAmountExceeded => 5u8,
            }),
    {
        match self {
            SwapValidityError::SwapsAreDisabled => 1,
            SwapValidityError::InvalidConfiguration => 2,
            SwapValidityError::NotEnoughBalance => 3,
            SwapValidityError::AmountTooSmall => 4,
            SwapValidityError::QAmountExceeded => 5,
        }
    }
}

/// A configuration is valid when it is disabled, or every amount, the
/// ratio, the start and the duration of the vesting are non-zero.
pub open spec fn valid_configuration(c: SwapConfiguration) -> bool {
    !c.enabled || (c.min_amount > 0 && c.max_q_amount > 0 && c.eq_to_q_ratio != 0
        && c.vesting_starting_block != 0 && c.vesting_duration_blocks != 0)
}

/// The configuration with the given fields replaced.
pub open spec fn updated_configuration(
    c: SwapConfiguration,
    enabled: Option<bool>,
    min_amount: Option<u128>,
    max_q_amount: Option<u128>,
    eq_to_q_ratio: Option<u128>,
    vesting_share: Option<u8>,
    vesting_starting_block: Option<u64>,
    vesting_duration_blocks: Option<u128>,
) -> SwapConfiguration {
    SwapConfiguration {
        enabled: match enabled {
            Some(v) => v,
            None => c.enabled,
        },
        min_amount: match min_amount {
            Some(v) => v,
            None => c.min_amount,
        },
        max_q_amount: match max_q_amount {
            Some(v) => v,
            None => c.max_q_amount,
        },
        eq_to_q_ratio: match eq_to_q_ratio {
            Some(v) => v,
            None => c.eq_to_q_ratio,
        },
        vesting_share: match vesting_share {
            Some(v) => v,
            None => c.vesting_share,
        },
        vesting_starting_block: match vesting_starting_block {
            Some(v) => v,
            None => c.vesting_starting_block,
        },
        vesting_duration_blocks: match vesting_duration_blocks {
            Some(v) => v,
            None => c.vesting_duration_blocks,
        },
    }
}

/// Replaces the given fields of the configuration; the result is stored only
/// where it is valid.
pub fn do_set_config(
    current: SwapConfiguration,
    enabled: Option<bool>,
    min_amount: Option<u128>,
    max_q_amount: Option<u128>,
    eq_to_q_ratio: Option<u128>,
    vesting_share: Option<u8>,
    vesting_starting_block: Option<u64>,
    vesting_duration_blocks: Option<u128>,
) -> (r: Result<SwapConfiguration, SwapError>)
    ensures
        ({
            let c = updated_configuration(
                current,
                enabled,
                min_amount,
                max_q_amount,
                eq_to_q_ratio,
                vesting_share,
                vesting_starting_block,
                vesting_duration_blocks,
            );
            if valid_configuration(c) {
                r == Ok::<SwapConfiguration, SwapError>(c)
            } else {
                r == Err::<SwapConfiguration, SwapError>(SwapError::InvalidConfiguration)
            }
        }),
{
    let mut c = current;
    if let Some(v) = enabled {
        c.enabled = v;
    }
    if let Some(v) = min_amount {
        c.min_amount = v;
    }
    if let Some(v) = max_q_amount {
        c.max_q_amount = v;
    }
    if let Some(v) = eq_to_q_ratio {
        c.eq_to_q_ratio = v;
    }
    if let Some(v) = vesting_share {
        c.vesting_share = v;
    }
    if let Some(v) = vesting_starting_block {
        c.vesting_starting_block = v;
    }
    if let Some(v) = vesting_duration_blocks {
        c.vesting_duration_blocks = v;
    }
    let valid = !c.enabled || (c.min_amount > 0 && c.max_q_amount > 0 && c.eq_to_q_ratio != 0
        && c.vesting_starting_block != 0 && c.vesting_duration_blocks != 0);
    if valid {
        Ok(c)
    } else {
        Err(SwapError::InvalidConfiguration)
    }
}

/// Swaps must be enabled.
pub fn ensure_eq_swap_enabled(c: &SwapConfiguration) -> (r: Result<(), SwapError>)
    ensures
        c.enabled ==> r is Ok,
        !c.enabled ==> r == Err::<(), SwapError>(SwapError::SwapsAreDisabled),
{
    if c.enabled {
        Ok(())
    } else {
        Err(SwapError::SwapsAreDisabled)
    }
}

/// The amount must be at least the minimum.
pub fn ensure_valid_amount(c: &SwapConfiguration, amount: u128) -> (r: Result<(), SwapError>)
    ensures
        amount >= c.min_amount ==> r is Ok,
        amount < c.min_amount ==> r == Err::<(), SwapError>(SwapError::AmountTooSmall),
{
    if amount >= c.min_amount {
        Ok(())
    } else {
        Err(SwapError::AmountTooSmall)
    }
}

/// An account may receive at most the configured Q.
pub fn ensure_q_amount_not_exceeded(c: &SwapConfiguration, q_received: u128) -> (r: Result<
    (),
    SwapError,
>)
    ensures
        q_received <= c.max_q_amount ==> r is Ok,
        q_received > c.max_q_amount ==> r == Err::<(), SwapError>(SwapError::QAmountExceeded),
{
    if q_received <= c.max_q_amount {
        Ok(())
    } else {
        Err(SwapError::QAmountExceeded)
    }
}

/// What is left of the balance after the amount must still be held.
pub open spec fn enough_balance_spec(balance: SignedBalance, amount: u128) -> Result<(), SwapError> {
    match sub_balance_spec(balance, amount) {
        None => Err(SwapError::Underflow),
        Some(b) => if b is Positive {
            Ok(())
        } else {
            Err(SwapError::NotEnoughBalance)
        },
    }
}

/// What is left of the balance after the amount must still be held.
pub fn ensure_enough_balance(balance: &SignedBalance, amount: u128) -> (r: Result<(), SwapError>)
    ensures
        r == enough_balance_spec(*balance, amount),
{
    match balance.sub_balance(amount) {
        None => Err(SwapError::Underflow),
        Some(b) => {
            if b.is_positive() {
                Ok(())
            } else {
                Err(SwapError::NotEnoughBalance)
            }
        },
    }
}

/// Vested Q: `q_total * share / 100`, rounded down.
pub open spec fn vested_part(q_total: int, share: u8) -> int {
    q_total * (if share <= 100 {
        share as int
    } else {
        100
    }) / 100
}

/// The vesting schedule change of a swap.
#[derive(PartialEq, Eq, Structural, Debug, Clone, Copy)]
pub enum VestingAction {
    /// Add `locked` to the account's schedule, spread over `duration` blocks.
    Update { locked: u128, duration: u128 },
    /// Create a schedule for the account.
    Add { locked: u128, per_block: u128, starting_block: u64 },
}

/// What a swap does: `q_amount` of Q goes to the account and
/// `vesting_amount` to the vesting account with the schedule change; the
/// account's received Q becomes `q_received`.
#[derive(PartialEq, Eq, Structural, Debug, Clone, Copy)]
pub struct SwapPlan {
    pub q_amount: u128,
    pub vesting_amount: u128,
    pub vesting: Option<VestingAction>,
    pub q_received: u128,
}

/// The Q that an amount of EQ gives: `amount * ratio`, rounded down.
pub open spec fn q_total_spec(c: SwapConfiguration, amount: u128) -> int {
    eq_mul_spec(c.eq_to_q_ratio as int, amount as int)
}

/// A swap creates a schedule with a division by the vested amount and by the
/// duration, both of which must then be non-zero.
pub open spec fn swap_divisions_ok(c: SwapConfiguration, amount: u128, has_schedule: bool) -> bool {
    (c.vesting_share != 0 && !has_schedule && q_total_spec(c, amount) <= u128::MAX) ==> (
    vested_part(q_total_spec(c, amount), c.vesting_share) != 0 && c.vesting_duration_blocks != 0)
}

/// The per-block amount of a new schedule: the vested amount over the
/// duration, or all of it at once where the duration is not shorter than it.
pub open spec fn per_block_spec(vesting: int, duration: int) -> int {
    if duration < vesting {
        vesting / duration
    } else {
        vesting / vesting
    }
}

/// Outcome of a swap: the balance must cover the amount, the Q must fit,
/// and the Q the account has received, this swap's included, must stay
/// within the maximum; then the Q, less the vested part, goes to the
/// account, and the vested part to its schedule.
pub open spec fn swap_spec(
    c: SwapConfiguration,
    amount: u128,
    balance: SignedBalance,
    has_schedule: bool,
    q_received_before: u128,
) -> Result<SwapPlan, SwapError> {
    if enough_balance_spec(balance, amount) is Err {
        Err(enough_balance_spec(balance, amount)->Err_0)
    } else if q_total_spec(c, amount) > u128::MAX {
        Err(SwapError::Overflow)
    } else {
        let q_total = q_total_spec(c, amount);
        let vesting = if c.vesting_share == 0 {
            0
        } else {
            vested_part(q_total, c.vesting_share)
        };
        let q = q_total - vesting;
        if q_received_before + q > u128::MAX {
            Err(SwapError::Overflow)
        } else if q_received_before + q > c.max_q_amount {
            Err(SwapError::QAmountExceeded)
        } else {
            Ok(
                SwapPlan {
                    q_amount: q as u128,
                    vesting_amount: vesting as u128,
                    vesting: if c.vesting_share == 0 {
                        None
                    } else if has_schedule {
                        Some(
                            VestingAction::Update {
                                locked: vesting as u128,
                                duration: c.vesting_duration_blocks,
                            },
                        )
                    } else {
                        Some(
                            VestingAction::Add {
                                locked: vesting as u128,
                                per_block: per_block_spec(
                                    vesting,
                                    c.vesting_duration_blocks as int,
                                ) as u128,
                                starting_block: c.vesting_starting_block,
                            },
                        )
                    },
                    q_received: (q_received_before + q) as u128,
                },
            )
        }
    }
}

/// Swaps `amount` of EQ held with `balance` for Q. `has_schedule` says
/// whether the account already vests; `q_received_before` is the Q it has
/// received so far.
pub fn do_swap_eq_to_q(
    c: &SwapConfiguration,
    amount: u128,
    balance: &SignedBalance,
    has_schedule: bool,
    q_received_before: u128,
) -> (r: Result<SwapPlan, SwapError>)
    requires
        swap_divisions_ok(*c, amount, has_schedule),
    ensures
        r == swap_spec(*c, amount, *balance, has_schedule, q_received_before),
{
    match ensure_enough_balance(balance, amount) {
        Ok(()) => {},
        Err(e) => {
            return Err(e);
        },
    }
    let q_total = match eq_checked_mul_int(c.eq_to_q_ratio, amount) {
        Some(q) => q,
        None => {
            return Err(SwapError::Overflow);
        },
    };
    let mut q_amount = q_total;
    let mut vesting_amount: u128 = 0;
    let mut vesting: Option<VestingAction> = None;
    if c.vesting_share != 0 {
        vesting_amount = percent_mul_floor(c.vesting_share, q_total);
        proof {
            let p: int = if c.vesting_share <= 100 {
                c.vesting_share as int
            } else {
                100
            };
            assert(q_total * p / 100 <= q_total) by (nonlinear_arith)
                requires
                    0 <= p <= 100,
                    q_total >= 0,
            ;
        }
        q_amount = q_total - vesting_amount;
        if has_schedule {
            vesting = Some(
                VestingAction::Update { locked: vesting_amount, duration: c.vesting_duration_blocks },
            );
        } else {
            let whole = vesting_amount / vesting_amount;
            let per_block = if c.vesting_duration_blocks < vesting_amount {
                vesting_amount / c.vesting_duration_blocks
            } else {
                whole
            };
            vesting = Some(
                VestingAction::Add {
                    locked: vesting_amount,
                    per_block,
                    starting_block: c.vesting_starting_block,
                },
            );
        }
    }
    let q_received = match q_received_before.checked_add(q_amount) {
        None => {
            return Err(SwapError::Overflow);
        },
        Some(total) => total,
    };
    ensure_q_amount_not_exceeded(c, q_received)?;
    Ok(SwapPlan { q_amount, vesting_amount, vesting, q_received })
}

/// Outcome of the check of a swap transaction before dispatch: swaps are
/// enabled, the amount is not too small, the account holds it, and the Q
/// received so far plus the amount stays within the maximum.
pub open spec fn check_swap_spec(
    c: SwapConfiguration,
    amount: u128,
    balance: SignedBalance,
    q_received_before: u128,
) -> Result<(), SwapValidityError> {
    if !c.enabled {
        Err(SwapValidityError::SwapsAreDisabled)
    } else if amount < c.min_amount {
        Err(SwapValidityError::AmountTooSmall)
    } else if enough_balance_spec(balance, amount) is Err {
        Err(SwapValidityError::NotEnoughBalance)
    } else if q_received_before + amount > u128::MAX || q_received_before + amount
        > c.max_q_amount {
        Err(SwapValidityError::QAmountExceeded)
    } else {
        Ok(())
    }
}

/// Checks a swap transaction before dispatch.
pub fn check_swap(c: &SwapConfiguration, amount: u128, balance: &SignedBalance, q_received_before: u128) -> (r:
    Result<(), SwapValidityError>)
    ensures
        r == check_swap_spec(*c, amount, *balance, q_received_before),
{
    if ensure_eq_swap_enabled(c).is_err() {
        return Err(SwapValidityError::SwapsAreDisabled);
    }
    if ensure_valid_amount(c, amount).is_err() {
        return Err(SwapValidityError::AmountTooSmall);
    }
    if ensure_enough_balance(balance, amount).is_err() {
        return Err(SwapValidityError::NotEnoughBalance);
    }
    let total = match q_received_before.checked_add(amount) {
        Some(t) => t,
        None => {
            return Err(SwapValidityError::QAmountExceeded);
        },
    };
    if ensure_q_amount_not_exceeded(c, total).is_err() {
        return Err(SwapValidityError::QAmountExceeded);
    }
    Ok(())
}

/// At the start of each block: swaps end once the vesting has started.
/// Returns the configuration to store, if it changes.
pub fn on_initialize(c: &SwapConfiguration, now: u64) -> (r: Option<SwapConfiguration>)
    ensures
        (c.enabled && c.vesting_starting_block <= now) ==> r == Some(
            SwapConfiguration { enabled: false, ..*c },
        ),
        !(c.enabled && c.vesting_starting_block <= now) ==> r is None,
{
    if c.enabled && c.vesting_starting_block <= now {
        Some(SwapConfiguration { enabled: false, ..*c })
    } else {
        None
    }
}

/// The vested part of a swap never exceeds the Q it gives, so the account
/// and the vesting account together receive exactly that Q.
pub proof fn law_vested_part_within(q_total: int, share: u8)
    requires
        q_total >= 0,
    ensures
        0 <= vested_part(q_total, share) <= q_total,
        (q_total - vested_part(q_total, share)) + vested_part(q_total, share) == q_total,
{
    let p: int = if share <= 100 {
        share as int
    } else {
        100
    };
    assert(0 <= q_total * p / 100 <= q_total) by (nonlinear_arith)
        requires
            0 <= p <= 100,
            q_total >= 0,
    ;
}

/// A swap call: the amount is checked first, then that swaps are enabled,
/// then the swap itself.
pub fn swap_eq_to_q(
    c: &SwapConfiguration,
    amount: u128,
    balance: &SignedBalance,
    has_schedule: bool,
    q_received_before: u128,
) -> (r: Result<SwapPlan, SwapError>)
    requires
        swap_divisions_ok(*c, amount, has_schedule),
    ensures
        amount < c.min_amount ==> r == Err::<SwapPlan, SwapError>(SwapError::AmountTooSmall),
        amount >= c.min_amount && !c.enabled ==> r == Err::<SwapPlan, SwapError>(
            SwapError::SwapsAreDisabled,
        ),
        amount >= c.min_amount && c.enabled ==> r == swap_spec(
            *c,
            amount,
            *balance,
            has_schedule,
            q_received_before,
        ),
{
    ensure_valid_amount(c, amount)?;
    ensure_eq_swap_enabled(c)?;
    do_swap_eq_to_q(c, amount, balance, has_schedule, q_received_before)
}

} // verus!
