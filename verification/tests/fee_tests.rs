use eq_pallets::balance::SignedBalance;
use eq_pallets::fee::{
    balance_from_fixedi128, calc_fee, fixedi128_from_balance, fixedi128_from_fixedi64, Fee,
    FeeAsset, FeeSettings, EQD, SECONDS_IN_YEAR,
};
use eq_pallets::rate::{Cd, InterestRateCalculator, InterestRateError};
use eq_pallets::reinit::{
    after_charge, charge_fee_error, check_accounts_for_single_auth, in_auth_window,
    in_removal_queue, lender_fee_total, local_authority_keys, need_to_reinit, now_secs,
    offchain_worker_runs, reinit_before_dispatch, reinit_start, set_now_millis_offset, tag_prefix,
    validate_unsigned, DefaultForAutoReinitEnabled, reinit_post_dispatch, reinit_redistributes_first,
    ReinitCheck, ReinitPostDispatch, ReinitWeight, UnsignedRequest, REINIT_REDISTRIBUTE_COUNT,
    AccountCheck, AfterCharge, InvalidRequest, OffchainAction, RateCall, RateError, ReinitStart,
    ValidRequest,
};

const ONE_TOKEN: u128 = 1_000_000_000;
const BTC: u64 = 0x627463;
const EQ: u64 = 0x6571;
const ETH: u64 = 0x657468;

fn settings() -> FeeSettings {
    FeeSettings {
        treasury_fee: 10_000,
        base_bailsman_fee: 10_000,
        base_lender_fee: 5_000,
        lender_part: 300_000,
    }
}

fn assets() -> Vec<FeeAsset> {
    vec![
        FeeAsset { id: BTC, physical: true },
        FeeAsset { id: EQ, physical: true },
        FeeAsset { id: ETH, physical: true },
        FeeAsset { id: EQD, physical: false },
    ]
}

/// The account of the buyout scenario: 10 BTC held, 50 ETH and 5000 EQD owed.
fn debt_weights() -> Result<Vec<i128>, InterestRateError> {
    let currencies: Vec<u64> = assets().iter().map(|a| a.id).collect();
    let calculator = InterestRateCalculator::create(
        &currencies,
        vec![
            Cd::collateral(10 * ONE_TOKEN),
            Cd::new(0, 0),
            Cd::debt(50 * ONE_TOKEN),
            Cd::debt(5_000 * ONE_TOKEN),
        ],
        vec![
            Some(10_000 * ONE_TOKEN),
            Some(ONE_TOKEN),
            Some(250 * ONE_TOKEN),
            Some(ONE_TOKEN),
        ],
        vec![ONE_TOKEN; 4],
    )
    .unwrap();
    calculator.debt_weights()
}

fn fee_after(elapsed: u64) -> Result<Fee, InterestRateError> {
    calc_fee(
        &assets(),
        EQ,
        debt_weights(),
        Some(17_500 * ONE_TOKEN),
        0,
        elapsed,
        Some(1_000_000_000),
        Ok(20_000_000_000_000_000),
        settings(),
    )
}

#[test]
fn reinit_zero_eq_full_buyout() {
    /* Expected buyout value
        r_prime = 2%
        debt_usd = 50 * 250 + 5000 = 17500
        coeff = 17_500
        treasury_fee = 17_500 * 1% = 175
        bailsman_fee = 175 + 245 + 30 = 450
        lender_fee = 17_500 * 12_500/17_500 (0.005 + 0.3 * 0.02) = 137,5
        total_fee = 175 + 450 + 137,5 = 762,5
    */
    let fee = fee_after(SECONDS_IN_YEAR).unwrap();
    assert_eq!(fee.basic_asset, EQ);
    assert_eq!(fee.treasury, 175 * ONE_TOKEN);
    assert_eq!(fee.bailsman, 449_999_999_999);
    assert_eq!(fee.lender, vec![(BTC, 0), (EQ, 0), (ETH, 137_499_999_999)]);
    assert_eq!(fee.total_fee(), 762_499_999_998);

    let after = after_charge(true, 0, SignedBalance::Negative(fee.total_fee()));
    assert_eq!(after.buyout, Some(762_499_999_998));
    assert!(after.set_last_update);
}

#[test]
fn no_time_no_fee() {
    let fee = fee_after(0).unwrap();
    assert_eq!(fee.total_fee(), 0);
}

#[test]
fn fee_errors() {
    let weights_err = calc_fee(
        &assets(),
        EQ,
        Err(InterestRateError::ZeroDebt),
        Some(1),
        0,
        1,
        Some(1_000_000_000),
        Ok(0),
        settings(),
    );
    assert_eq!(weights_err.unwrap_err(), InterestRateError::ZeroDebt);
    let no_debt = calc_fee(
        &assets(),
        EQ,
        debt_weights(),
        None,
        0,
        1,
        Some(1_000_000_000),
        Ok(0),
        settings(),
    );
    assert_eq!(no_debt.unwrap_err(), InterestRateError::ExternalError);
    let no_price = calc_fee(
        &assets(),
        EQ,
        debt_weights(),
        Some(1),
        0,
        1,
        None,
        Ok(0),
        settings(),
    );
    assert_eq!(no_price.unwrap_err(), InterestRateError::NoPrices);
    let negative = calc_fee(
        &assets(),
        EQ,
        debt_weights(),
        Some(17_500 * ONE_TOKEN),
        0,
        SECONDS_IN_YEAR,
        Some(1_000_000_000),
        Ok(-1_000_000_000_000_000_000),
        settings(),
    );
    assert_eq!(negative.unwrap_err(), InterestRateError::ValueError);
}

#[test]
fn fixed_conversions() {
    assert_eq!(fixedi128_from_balance(5), Some(5_000_000_000));
    assert_eq!(fixedi128_from_balance(u128::MAX), None);
    assert_eq!(fixedi128_from_fixedi64(-3), -3_000_000_000);
    assert_eq!(balance_from_fixedi128(1_999_999_999), Some(1));
    assert_eq!(balance_from_fixedi128(-1), None);
}

#[test]
fn need_to_reinit_decisions() {
    // a bad position needs a reinit whatever the fee
    assert!(need_to_reinit(Some(false), Ok(0), Some(true), ONE_TOKEN));
    // a failed check does not margin call; a fee above the surplus does
    assert!(!need_to_reinit(None, Ok(ONE_TOKEN), Some(true), ONE_TOKEN));
    assert!(need_to_reinit(None, Ok(ONE_TOKEN + 1), Some(true), ONE_TOKEN));
    // the position becomes bad once the fee is charged
    assert!(need_to_reinit(Some(true), Ok(1), Some(false), ONE_TOKEN));
    // a fee error counts as no fee
    assert!(!need_to_reinit(Some(true), Err(InterestRateError::ZeroDebt), Some(true), 0));
}

#[test]
fn charge_fee_errors_are_reported() {
    assert_eq!(charge_fee_error(InterestRateError::ZeroDebt), None);
    assert_eq!(charge_fee_error(InterestRateError::NoPrices), Some(RateError::NoPrices));
    assert_eq!(charge_fee_error(InterestRateError::Overflow), Some(RateError::Overflow));
    assert_eq!(
        charge_fee_error(InterestRateError::LastUpdateInFuture),
        Some(RateError::LastUpdateInFuture)
    );
}

#[test]
fn lender_fee_counts_accepted_rewards_only() {
    let fees = vec![(BTC, 5), (ETH, 7), (EQ, 11)];
    assert_eq!(lender_fee_total(&fees, &vec![true, false, true]), 16);
    assert_eq!(lender_fee_total(&fees, &vec![false, false, false]), 0);
}

#[test]
fn reinit_flow() {
    assert_eq!(reinit_start(5, 5, 6, false), ReinitStart::Skip);
    assert_eq!(reinit_start(1, 5, 6, true), ReinitStart::MarginCall);
    assert_eq!(reinit_start(1, 5, 6, false), ReinitStart::ChargeFee);
    assert_eq!(
        after_charge(false, 0, SignedBalance::Positive(0)),
        AfterCharge { buyout: None, set_last_update: true, keep_error: false }
    );
    assert_eq!(
        after_charge(false, 10, SignedBalance::Negative(3)),
        AfterCharge { buyout: None, set_last_update: false, keep_error: true }
    );
    assert_eq!(after_charge(true, 10, SignedBalance::Positive(3)).buyout, None);
}

#[test]
fn offset_only_grows() {
    assert_eq!(set_now_millis_offset(10, 11), Ok(11));
    assert_eq!(set_now_millis_offset(10, 10), Err(RateError::InvalidOffset));
    assert_eq!(now_secs(100, 900_000_000, 1_500, false), 102);
    assert_eq!(now_secs(100, 900_000_000, 1_500, true), 100);
}

#[test]
fn auth_window() {
    // three validators: authority 1 checks indices 0, 1 and 2 modulo 3
    assert!(in_auth_window(0, 3, 1));
    assert!(in_auth_window(4, 3, 1));
    assert!(in_auth_window(5, 3, 1));
    assert!(!in_auth_window(2, 3, 0));
    assert!(in_auth_window(1, 3, 0));
}

#[test]
fn offchain_worker_requests() {
    let accounts = vec![
        AccountCheck {
            account: 100,
            technical: false,
            need_reinit: true,
            can_be_deleted: false,
            balances: vec![(BTC, SignedBalance::Negative(4), false), (ETH, SignedBalance::Positive(9), true)],
        },
        AccountCheck {
            account: 101,
            technical: true,
            need_reinit: true,
            can_be_deleted: true,
            balances: vec![(BTC, SignedBalance::Positive(2), true)],
        },
        AccountCheck {
            account: 102,
            technical: false,
            need_reinit: false,
            can_be_deleted: true,
            balances: vec![(BTC, SignedBalance::Positive(2), false)],
        },
    ];
    let actions = check_accounts_for_single_auth(&accounts, 3, 0, &[BTC]);
    assert_eq!(
        actions,
        vec![
            OffchainAction::Reinit { account: 100, higher_priority: true },
            OffchainAction::Deposit { account: 100, asset: BTC, amount: 4 },
            OffchainAction::Withdraw { account: 101, asset: BTC, amount: 2 },
        ]
    );
    assert!(in_removal_queue(&[ETH, BTC], BTC));
    assert!(!in_removal_queue(&[ETH], BTC));
}

#[test]
fn local_keys_are_found() {
    assert_eq!(local_authority_keys(&vec![7, 3, 9], &vec![9, 7]), vec![(0, 7), (2, 9)]);
}

fn request(call: RateCall, account: Option<u64>, asset: u64, validators_len: u32, authority_index: u32, higher_priority: bool) -> Option<UnsignedRequest> {
    Some(UnsignedRequest { call, account, asset, validators_len, authority_index, higher_priority })
}

/// The account needs a reinit (its position is bad) or not (a small fee).
fn reinit_check(needed: bool) -> ReinitCheck {
    ReinitCheck {
        first_check: Some(!needed),
        fee: Ok(0),
        second_check: Some(true),
        min_surplus: ONE_TOKEN,
    }
}

#[test]
fn unsigned_requests() {
    let queue = Some(vec![BTC]);
    assert_eq!(
        validate_unsigned(request(RateCall::Reinit, Some(7), 0, 3, 1, true), 3, true, reinit_check(true), Ok(false), &queue, 100),
        Ok(ValidRequest { call: RateCall::Reinit, priority: 101, provides: 7, longevity: 5, propagate: true })
    );
    // a reinit that is not needed
    assert_eq!(
        validate_unsigned(request(RateCall::Reinit, Some(7), 0, 3, 1, true), 3, true, reinit_check(false), Ok(true), &queue, 100),
        Err(InvalidRequest::CheckNotPassed)
    );
    assert_eq!(
        validate_unsigned(request(RateCall::Withdraw, Some(7), BTC, 4, 1, false), 3, true, reinit_check(true), Ok(true), &queue, 100),
        Err(InvalidRequest::InvalidValidatorsLen)
    );
    assert_eq!(
        validate_unsigned(request(RateCall::Deposit, Some(7), BTC, 3, 3, false), 3, true, reinit_check(true), Ok(true), &queue, 100),
        Err(InvalidRequest::BadProof)
    );
    assert_eq!(
        validate_unsigned(request(RateCall::Deposit, Some(7), BTC, 3, 0, false), 3, false, reinit_check(true), Ok(true), &queue, 100),
        Err(InvalidRequest::BadProof)
    );
    // the deposit of a queued asset, the withdrawal of one that is not
    assert_eq!(
        validate_unsigned(request(RateCall::Deposit, Some(7), BTC, 3, 0, false), 3, true, reinit_check(false), Err(()), &queue, 100),
        Ok(ValidRequest { call: RateCall::Deposit, priority: 100, provides: 7, longevity: 5, propagate: true })
    );
    assert_eq!(
        validate_unsigned(request(RateCall::Withdraw, Some(7), ETH, 3, 0, false), 3, true, reinit_check(true), Ok(true), &queue, 100),
        Err(InvalidRequest::CheckNotPassed)
    );
    assert_eq!(
        validate_unsigned(request(RateCall::Withdraw, Some(7), BTC, 3, 0, false), 3, true, reinit_check(true), Ok(true), &None, 100),
        Err(InvalidRequest::CheckNotPassed)
    );
    // a deletion needs the account to be deletable; a failed check counts as not
    assert_eq!(
        validate_unsigned(request(RateCall::DeleteAccount, Some(7), 0, 3, 0, false), 3, true, reinit_check(true), Ok(false), &queue, 100),
        Err(InvalidRequest::CheckNotPassed)
    );
    assert_eq!(
        validate_unsigned(request(RateCall::DeleteAccount, Some(7), 0, 3, 0, false), 3, true, reinit_check(true), Err(()), &queue, 100),
        Err(InvalidRequest::CheckNotPassed)
    );
    assert_eq!(
        validate_unsigned(request(RateCall::DeleteAccount, Some(7), 0, 3, 0, false), 3, true, reinit_check(false), Ok(true), &queue, 100)
            .map(|v| v.provides),
        Ok(7)
    );
    assert_eq!(
        validate_unsigned(None, 3, true, reinit_check(true), Ok(true), &queue, 100),
        Err(InvalidRequest::Call)
    );
    assert_eq!(InvalidRequest::CheckNotPassed.custom_code(), Some(20));
    assert_eq!(InvalidRequest::InvalidValidatorsLen.custom_code(), Some(10));
    assert_eq!(tag_prefix(RateCall::Reinit), "EqFee");
}

#[test]
fn reinit_reports_its_weight() {
    assert_eq!(
        reinit_post_dispatch(false),
        ReinitPostDispatch { actual_weight: ReinitWeight::Reinit, pays_fee: true }
    );
    assert_eq!(
        reinit_post_dispatch(true),
        ReinitPostDispatch { actual_weight: ReinitWeight::ReinitAndRedistribute(30), pays_fee: true }
    );
    assert_eq!(REINIT_REDISTRIBUTE_COUNT, 30);
}

#[test]
fn reinit_on_bailsman_do_distribution_first() {
    let borrower = 0;
    let bailsman = 1234;
    // the borrower's reinit leaves the distribution queue; the bailsman's
    // takes its distribution first
    assert!(!reinit_redistributes_first(borrower, 900, 901, false));
    assert!(reinit_redistributes_first(bailsman, 900, 901, true));
    // the bailsman pallet's own account is not reinited
    assert!(!reinit_redistributes_first(900, 900, 901, true));
}

/// Debt weights of an account over BTC, EQ, ETH and EQD.
fn weights_of(cds: Vec<Cd<u128>>) -> Result<Vec<i128>, InterestRateError> {
    let currencies: Vec<u64> = assets().iter().map(|a| a.id).collect();
    InterestRateCalculator::create(
        &currencies,
        cds,
        vec![
            Some(10_000 * ONE_TOKEN),
            Some(ONE_TOKEN),
            Some(250 * ONE_TOKEN),
            Some(ONE_TOKEN),
        ],
        vec![ONE_TOKEN; 4],
    )
    .unwrap()
    .debt_weights()
}

#[test]
fn reinit_sufficient_eq_no_buyout() {
    // 20_000 EQ held, 1 BTC owed, one day
    let weights = weights_of(vec![Cd::new(0, ONE_TOKEN), Cd::collateral(20_000 * ONE_TOKEN), Cd::new(0, 0), Cd::new(0, 0)]);
    let fee = calc_fee(
        &assets(),
        EQ,
        weights,
        Some(10_000 * ONE_TOKEN),
        0,
        24 * 60 * 60,
        Some(1_000_000_000),
        Ok(20_000_000_000_000_000),
        settings(),
    )
    .unwrap();
    let expected_fee = 1232032852u128;
    assert_eq!(fee.total_fee(), expected_fee);
    let eq_after = SignedBalance::Positive(20_000 * ONE_TOKEN).sub_balance(fee.total_fee()).unwrap();
    assert_eq!(eq_after, SignedBalance::Positive(20_000 * ONE_TOKEN - expected_fee));
    // no debt in EQ: no buyout
    assert_eq!(after_charge(true, 1, eq_after).buyout, None);
}

#[test]
fn reinit_less_than_debt_eq_partial_buyout() {
    // 1 EQ and 20 BTC held, 100_000 EQD and 100 ETH owed, one year
    let weights = weights_of(vec![
        Cd::collateral(20 * ONE_TOKEN),
        Cd::collateral(ONE_TOKEN),
        Cd::debt(100 * ONE_TOKEN),
        Cd::debt(100_000 * ONE_TOKEN),
    ]);
    let fee = calc_fee(
        &assets(),
        EQ,
        weights,
        Some(125_000 * ONE_TOKEN),
        0,
        SECONDS_IN_YEAR,
        Some(1_000_000_000),
        Ok(20_000_000_000_000_000),
        settings(),
    )
    .unwrap();
    let eq_after = SignedBalance::Positive(ONE_TOKEN).sub_balance(fee.total_fee()).unwrap();
    let after = after_charge(true, 1, eq_after);
    assert_eq!(after.buyout, Some(5124 * ONE_TOKEN));
}

#[test]
fn reinit_on_debt_wrong_client() {
    // five authorities, of which this node holds four keys (not the third)
    let local = local_authority_keys(&vec![11, 21, 101, 41, 51], &vec![11, 21, 31, 41, 51]);
    let indices: Vec<u32> = local.iter().map(|(i, _)| *i).collect();
    assert_eq!(indices, vec![0, 1, 3, 4]);
    let needing = |ids: &[u64]| -> Vec<AccountCheck> {
        ids.iter()
            .map(|&a| AccountCheck { account: a, technical: false, need_reinit: true, can_be_deleted: false, balances: vec![] })
            .collect()
    };
    let count = |accounts: &Vec<AccountCheck>| -> Vec<OffchainAction> {
        indices.iter().flat_map(|&i| check_accounts_for_single_auth(accounts, 5, i, &[])).collect()
    };
    let actions = count(&needing(&[0, 1, 2, 3, 4]));
    assert_eq!(actions.len(), 10);
    for a in &actions {
        if let OffchainAction::Reinit { account, higher_priority: true } = a {
            assert_ne!(*account, 2);
        }
    }
    // account 6 comes sixth: it falls to the first two authorities
    let actions = count(&needing(&[0, 1, 2, 3, 4, 6]));
    assert_eq!(actions.len(), 12);
    for id in [0u64, 1, 2, 3, 4, 6] {
        assert!(actions.iter().any(|a| matches!(a, OffchainAction::Reinit { account, .. } if *account == id)));
    }
}

#[test]
fn subaccounts_reinited_before_dispatch() {
    assert_eq!(reinit_before_dispatch(true, true, Some(1), None, Some(3)), vec![1, 3]);
    assert!(reinit_before_dispatch(false, true, Some(1), Some(2), Some(3)).is_empty());
}

/// An account of the offchain worker's scan, with its balances.
fn account(account: u64, can_be_deleted: bool, balances: Vec<(u64, SignedBalance, bool)>) -> AccountCheck {
    AccountCheck { account, technical: false, need_reinit: false, can_be_deleted, balances }
}

#[test]
fn asset_removal_non_zero_collateral() {
    // 322 holds 100 BTC; nobody owes BTC: it is withdrawn
    let accounts = vec![account(322, false, vec![(BTC, SignedBalance::Positive(100), true)])];
    assert_eq!(
        check_accounts_for_single_auth(&accounts, 5, 0, &[BTC]),
        vec![OffchainAction::Withdraw { account: 322, asset: BTC, amount: 100 }]
    );
}

#[test]
fn asset_removal_non_zero_debt() {
    // 322 holds ETH and owes 100 BTC: the debt is deposited over
    let accounts = vec![account(
        322,
        false,
        vec![(ETH, SignedBalance::Positive(100_000_000_000_000), true), (BTC, SignedBalance::Negative(100), false)],
    )];
    assert_eq!(
        check_accounts_for_single_auth(&accounts, 5, 0, &[BTC]),
        vec![OffchainAction::Deposit { account: 322, asset: BTC, amount: 100 }]
    );
}

#[test]
fn asset_removal_non_zero_collateral_and_debt() {
    // 321 holds BTC but 322 owes some: only the debt is deposited over
    let accounts = vec![
        account(321, false, vec![(BTC, SignedBalance::Positive(100_000_000_000_000), false)]),
        account(
            322,
            false,
            vec![(ETH, SignedBalance::Positive(100_000_000_000_000), true), (BTC, SignedBalance::Negative(100), false)],
        ),
    ];
    assert_eq!(
        check_accounts_for_single_auth(&accounts, 5, 0, &[BTC]),
        vec![OffchainAction::Deposit { account: 322, asset: BTC, amount: 100 }]
    );
}

#[test]
fn acc_delete_offchain() {
    let accounts = vec![account(987, true, vec![(EQD, SignedBalance::Positive(150_000), true)])];
    assert_eq!(
        check_accounts_for_single_auth(&accounts, 5, 0, &[]),
        vec![OffchainAction::DeleteAccount { account: 987, higher_priority: true }]
    );
}

#[test]
fn acc_delete_offchain_no_trx() {
    let accounts = vec![account(321, false, vec![(EQD, SignedBalance::Positive(150_000), true)])];
    assert_eq!(check_accounts_for_single_auth(&accounts, 5, 0, &[]), vec![]);
}

#[test]
fn offchain_worker_turn_off() {
    assert!(DefaultForAutoReinitEnabled());
    assert!(offchain_worker_runs(true, true));
    assert!(!offchain_worker_runs(true, false));
    assert!(!offchain_worker_runs(false, true));
}

#[test]
fn need_to_reinit_bailsman() {
    // good positions and no fee yet: neither the borrower nor the bailsman
    assert!(!need_to_reinit(Some(true), Ok(0), Some(true), ONE_TOKEN));
    // two months later with debts: both positions are bad
    assert!(need_to_reinit(Some(false), Ok(2 * ONE_TOKEN), Some(false), ONE_TOKEN));
    // the bailsman's pending distribution covers its position, and its fee
    // stays under the surplus: no reinit
    assert!(!need_to_reinit(Some(true), Ok(ONE_TOKEN / 2), Some(true), ONE_TOKEN));
}

#[test]
fn reinit_on_debt() {
    // account 1, in debt, needs a reinit; authority 0 of five checks it
    let accounts = vec![
        AccountCheck { account: 0, technical: false, need_reinit: false, can_be_deleted: false, balances: vec![] },
        AccountCheck { account: 1, technical: false, need_reinit: true, can_be_deleted: false, balances: vec![] },
    ];
    assert_eq!(
        check_accounts_for_single_auth(&accounts, 5, 0, &[]),
        vec![OffchainAction::Reinit { account: 1, higher_priority: false }]
    );
}

#[test]
fn reinit_on_margincall() {
    let accounts = |need: bool| -> Vec<AccountCheck> {
        (0..5u64)
            .map(|a| AccountCheck { account: a, technical: false, need_reinit: need, can_be_deleted: false, balances: vec![] })
            .collect()
    };
    // positions still good: nothing is submitted
    assert!(!need_to_reinit(Some(true), Ok(0), Some(true), ONE_TOKEN));
    let none: Vec<OffchainAction> =
        (0..5u32).flat_map(|i| check_accounts_for_single_auth(&accounts(false), 5, i, &[])).collect();
    assert!(none.is_empty());
    // positions under the margin: every authority reinits its window
    assert!(need_to_reinit(Some(false), Ok(0), Some(true), ONE_TOKEN));
    let all: Vec<OffchainAction> =
        (0..5u32).flat_map(|i| check_accounts_for_single_auth(&accounts(true), 5, i, &[])).collect();
    assert_eq!(all.len(), 13);
}
