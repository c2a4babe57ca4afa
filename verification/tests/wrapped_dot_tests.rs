use eq_pallets::wrapped_dot;
use eq_pallets::wrapped_dot::{
    apply_rebalance, balance_from_xcm, balance_into_xcm, calc_burn_wrapped_amount,
    calc_deposit_amount, calc_mint_wrapped_amount, clear_withdraw_queue, deposit,
    dot_to_wrapped_dot_ratio, get_price_coeff, get_withdraw_and_burn_amount,
    ledger_ready_to_sync, update_relay_ledger, withdraw,
    wrapped_dot_total_supply, QueuePayout, Rebalance, StakingBalance, StakingLedger,
    UnlockChunk, WithdrawAmount, WithdrawPlan, WrappedDotError,
};

const ONE_TOKEN: u128 = 1_000_000_000;
const ONE_DOT: u128 = 10_000_000_000;

/// Withdraw fee of the tests (0.98940904738).
const WITHDRAW_FEE: u32 = 989_409;
const MIN_DEPOSIT: u128 = 5_000_000_000;
const TARGET_RESERVE: u32 = 150_000;
const MAX_RESERVE: u32 = 200_000;
const MIN_RESERVE: u32 = 100_000;

fn init_wrapped_dot_supply() -> (StakingBalance, u128) {
    (StakingBalance { transferable: 200 * ONE_TOKEN, staked: 1000 * ONE_TOKEN }, 1500 * ONE_TOKEN)
}

#[test]
fn get_price_should_work() {
    let b = StakingBalance { transferable: 0, staked: 0 };
    assert_eq!(get_price_coeff(&b, 0, WITHDRAW_FEE), None);
    assert_eq!(get_price_coeff(&b, 1000, WITHDRAW_FEE), Some(0));
    let b = StakingBalance { transferable: 1000, staked: 100 };
    // 1100 / 1000 * 0.989409
    assert_eq!(get_price_coeff(&b, 1000, WITHDRAW_FEE), Some(1_088_349_900));
}

#[test]
fn deposit_should_work() {
    let (balance, supply) = init_wrapped_dot_supply();
    let deposit_amount = 100 * ONE_TOKEN;
    let mint_amount = calc_mint_wrapped_amount(&balance, supply, deposit_amount).unwrap();
    assert_eq!(deposit(&balance, supply, MIN_DEPOSIT, deposit_amount), Ok(mint_amount));
    assert_eq!(mint_amount, 125 * ONE_TOKEN);
}

#[test]
fn deposit_should_fail_when_insufficient_deposit() {
    let (balance, supply) = init_wrapped_dot_supply();
    assert_eq!(
        deposit(&balance, supply, MIN_DEPOSIT, 2 * ONE_TOKEN),
        Err(WrappedDotError::InsufficientDeposit)
    );
}

#[test]
fn calc_mint_amount_should_work() {
    let (balance, supply) = init_wrapped_dot_supply();
    // eqdot amount = (total_supply / total + staked) * deposit_amount = 1500 / 1200 * 10 = 12.5
    assert_eq!(calc_mint_wrapped_amount(&balance, supply, 10 * ONE_TOKEN), Ok(12500000000));
}

#[test]
fn calc_mint_amount_should_fail_when_no_supply() {
    let b = StakingBalance { transferable: 0, staked: 0 };
    assert_eq!(calc_mint_wrapped_amount(&b, 0, 2 * ONE_TOKEN), Err(WrappedDotError::MathError));
}

#[test]
fn calc_burn_wrapped_amount_should_work() {
    let b = StakingBalance { transferable: 20 * ONE_TOKEN, staked: 100 * ONE_TOKEN };
    assert_eq!(
        calc_burn_wrapped_amount(&b, 100 * ONE_TOKEN, WITHDRAW_FEE, 10 * ONE_TOKEN),
        Ok(8422536410)
    );
}

#[test]
fn calc_deposit_amount_should_work() {
    let b = StakingBalance { transferable: 20 * ONE_TOKEN, staked: 100 * ONE_TOKEN };
    assert_eq!(
        calc_deposit_amount(&b, 100 * ONE_TOKEN, WITHDRAW_FEE, 10 * ONE_TOKEN),
        Ok(11872908000)
    );
}

#[test]
fn withdraw_should_fail_when_insufficient_amount() {
    let (balance, supply) = init_wrapped_dot_supply();
    assert_eq!(
        withdraw(&balance, supply, WITHDRAW_FEE, MIN_DEPOSIT, WithdrawAmount::Dot(ONE_TOKEN)),
        Err(WrappedDotError::InsufficientWithdraw)
    );
}

#[test]
fn withdraw_dot_amount_when_transferable_enough() {
    let (balance, supply) = init_wrapped_dot_supply();
    let (w, b) =
        get_withdraw_and_burn_amount(&balance, supply, WITHDRAW_FEE, WithdrawAmount::Dot(50 * ONE_TOKEN))
            .unwrap();
    assert_eq!(w, 50 * ONE_TOKEN);
    assert_eq!(
        withdraw(&balance, supply, WITHDRAW_FEE, MIN_DEPOSIT, WithdrawAmount::Dot(50 * ONE_TOKEN)),
        Ok(WithdrawPlan::Immediate { withdraw: w, burn: b })
    );
}

#[test]
fn withdraw_eqdot_amount_when_transferable_enough() {
    let (balance, supply) = init_wrapped_dot_supply();
    let withdraw_eqdot_amount = 50 * ONE_TOKEN;
    let amount_to_deposit =
        calc_deposit_amount(&balance, supply, WITHDRAW_FEE, withdraw_eqdot_amount).unwrap();
    let plan = withdraw(
        &balance,
        supply,
        WITHDRAW_FEE,
        MIN_DEPOSIT,
        WithdrawAmount::EqDot(withdraw_eqdot_amount),
    );
    assert_eq!(
        plan,
        Ok(WithdrawPlan::Immediate { withdraw: amount_to_deposit, burn: withdraw_eqdot_amount })
    );
    // the held DOT pays the account; the staked DOT stays
    assert!(balance.transferable >= amount_to_deposit);
    assert_eq!(balance.staked, 1000 * ONE_TOKEN);
}

#[test]
fn withdraw_dot_send_xcm_when_transferable_not_enough() {
    let (balance, supply) = init_wrapped_dot_supply();
    let amount = 210 * ONE_TOKEN;
    let (_, b) =
        get_withdraw_and_burn_amount(&balance, supply, WITHDRAW_FEE, WithdrawAmount::Dot(amount))
            .unwrap();
    match withdraw(&balance, supply, WITHDRAW_FEE, MIN_DEPOSIT, WithdrawAmount::Dot(amount)).unwrap() {
        WithdrawPlan::Queued { unbond, burn } => {
            assert_eq!(unbond, amount);
            assert!(burn <= b);
            assert_eq!(balance_into_xcm(unbond), Some(210 * ONE_DOT));
        },
        other => panic!("expected a queued withdrawal, got {:?}", other),
    }
}

#[test]
fn withdraw_eqdot_send_xcm_when_transferable_not_enough() {
    let (balance, supply) = init_wrapped_dot_supply();
    let burn = 350 * ONE_TOKEN;
    match withdraw(&balance, supply, WITHDRAW_FEE, MIN_DEPOSIT, WithdrawAmount::EqDot(burn)).unwrap() {
        WithdrawPlan::Queued { unbond, burn: b } => {
            assert_eq!(b, burn);
            let w = calc_deposit_amount(&balance, supply, WITHDRAW_FEE, burn).unwrap();
            assert!(unbond >= w);
        },
        other => panic!("expected a queued withdrawal, got {:?}", other),
    }
}

#[test]
fn withdraw_clear_queue() {
    let queue = vec![(1u64, 100 * ONE_TOKEN, 90 * ONE_TOKEN), (2u64, 350 * ONE_TOKEN, 300 * ONE_TOKEN), (3u64, 10, 9)];
    assert_eq!(
        clear_withdraw_queue(400 * ONE_TOKEN, &queue),
        QueuePayout { paid: 1, burnt: 90 * ONE_TOKEN, transferable: 300 * ONE_TOKEN }
    );
    assert_eq!(
        clear_withdraw_queue(1000 * ONE_TOKEN, &queue),
        QueuePayout { paid: 3, burnt: 390 * ONE_TOKEN + 9, transferable: 550 * ONE_TOKEN - 10 }
    );
    assert_eq!(
        clear_withdraw_queue(0, &queue),
        QueuePayout { paid: 0, burnt: 0, transferable: 0 }
    );
}

#[test]
fn rebalance_staking() {
    // RC = 25%, needs to reduce
    let b = StakingBalance { transferable: 250 * ONE_TOKEN, staked: 750 * ONE_TOKEN };
    let r = wrapped_dot::rebalance_staking(&b, MAX_RESERVE, TARGET_RESERVE, MIN_RESERVE, &vec![], 0);
    assert_eq!(r, Rebalance::BondExtra(100 * ONE_TOKEN));
    assert_eq!(
        apply_rebalance(&b, r),
        StakingBalance { transferable: 150 * ONE_TOKEN, staked: 850 * ONE_TOKEN }
    );
    assert_eq!(balance_into_xcm(100 * ONE_TOKEN), Some(100 * ONE_DOT));

    // RC = 5%, needs to increase
    let b = StakingBalance { transferable: 50 * ONE_TOKEN, staked: 950 * ONE_TOKEN };
    let r = wrapped_dot::rebalance_staking(&b, MAX_RESERVE, TARGET_RESERVE, MIN_RESERVE, &vec![], 0);
    assert_eq!(r, Rebalance::Unbond(100 * ONE_TOKEN));
    assert_eq!(apply_rebalance(&b, r), b);

    // RC = 20%, no need to change
    let b = StakingBalance { transferable: 200 * ONE_TOKEN, staked: 800 * ONE_TOKEN };
    assert_eq!(
        wrapped_dot::rebalance_staking(&b, MAX_RESERVE, TARGET_RESERVE, MIN_RESERVE, &vec![], 0),
        Rebalance::Keep
    );
}

#[test]
fn ledger_sync() {
    let mut ledger = StakingLedger {
        stash: [7u8; 32],
        claimed_rewards: vec![],
        total: 1000 * ONE_DOT,
        active: 900 * ONE_DOT,
        unlocking: vec![
            UnlockChunk { value: 60 * ONE_DOT, era: 3 },
            UnlockChunk { value: 40 * ONE_DOT, era: 5 },
        ],
    };
    assert!(ledger_ready_to_sync(&ledger, 100 * ONE_TOKEN, 900 * ONE_TOKEN));
    assert!(!ledger_ready_to_sync(&ledger, 99 * ONE_TOKEN, 900 * ONE_TOKEN));
    let b = StakingBalance { transferable: 10 * ONE_TOKEN, staked: 900 * ONE_TOKEN };
    let sync = update_relay_ledger(&b, 4, 2, &mut ledger);
    assert_eq!(sync.withdraw_unbonded, Some(60 * ONE_TOKEN));
    assert_eq!(sync.last_withdraw_era, 4);
    assert_eq!(sync.balance.transferable, 70 * ONE_TOKEN);
    assert_eq!(sync.balance.staked, 940 * ONE_TOKEN);
    assert_eq!(ledger.total, 940 * ONE_DOT);
    assert_eq!(ledger.unlocking, vec![UnlockChunk { value: 40 * ONE_DOT, era: 5 }]);
    // the same era again withdraws nothing
    let again = update_relay_ledger(&sync.balance, 4, 4, &mut ledger);
    assert_eq!(again.withdraw_unbonded, None);
    assert_eq!(again.balance, sync.balance);
    assert_eq!(ledger.stash, [7u8; 32]);
    assert_eq!(ledger.active, 900 * ONE_DOT);
}

#[test]
fn ledger_default_from() {
    let ledger = StakingLedger::default_from([3u8; 32]);
    assert_eq!(ledger.stash, [3u8; 32]);
    assert_eq!(ledger.total, 0);
    assert_eq!(ledger.active, 0);
    assert!(ledger.unlocking.is_empty());
    assert!(ledger.claimed_rewards.is_empty());
}

#[test]
fn supply_and_ratio() {
    assert_eq!(wrapped_dot_total_supply(1500, 100), 1400);
    let b = StakingBalance { transferable: 200 * ONE_TOKEN, staked: 1000 * ONE_TOKEN };
    assert_eq!(b.total(), 1200 * ONE_TOKEN);
    assert_eq!(dot_to_wrapped_dot_ratio(&b, 1500 * ONE_TOKEN), Some(800_000_000));
    assert_eq!(dot_to_wrapped_dot_ratio(&b, 0), None);
    assert_eq!(balance_from_xcm(123 * ONE_DOT + 7), 123 * ONE_TOKEN);
    assert_eq!(balance_into_xcm(u128::MAX), None);
}

#[test]
fn clear_queue_with_a_large_unpaid_tail() {
    // the unpaid entries' EQDOT need not fit: only the paid ones are summed
    let queue = vec![(1u64, 10, 5), (2u64, 1000, u128::MAX), (3u64, 1, u128::MAX)];
    assert_eq!(
        clear_withdraw_queue(100, &queue),
        QueuePayout { paid: 1, burnt: 5, transferable: 90 }
    );
}
