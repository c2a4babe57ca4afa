use eq_pallets::balance::SignedBalance;
use eq_pallets::treasury::{
    calc_amount_to_exchange, calc_buyout_amount, check_buyout, do_buyout, eq_buyout,
    ensure_buyout_limit_not_exceeded, exchange_error, is_enough, sort_assets_by_priority,
    update_buyouts, validate_call, Amount, BuyoutAsset, TreasuryCall, TreasuryError, ValidityError,
};

const ONE_TOKEN: u128 = 1_000_000_000;
const EQ: u64 = 0x6571;
const BTC: u64 = 0x627463;
const ETH: u64 = 0x657468;
const EOS: u64 = 0x656f73;
const DOT: u64 = 0x646f74;

/// Sell fee of the treasury: 10%.
const SELL_FEE: u32 = 100_000;
const MIN_AMOUNT_TO_BUYOUT: u128 = 100 * ONE_TOKEN;
const DAY: u64 = 86_400;
const NOW: u64 = 1_600_000_000;

fn price(asset: u64) -> Option<u128> {
    match asset {
        EQ => Some(ONE_TOKEN),
        DOT => Some(17 * ONE_TOKEN),
        ETH => Some(250 * ONE_TOKEN),
        _ => None,
    }
}

/// The account of the buyout scenarios: 20 EQ, 0.5 BTC, 10 ETH, 1000 EOS,
/// priced EQ 25, BTC 10000, ETH 250, EOS 3.
fn account_assets() -> Vec<BuyoutAsset> {
    vec![
        BuyoutAsset {
            asset: EQ,
            balance: SignedBalance::Positive(20 * ONE_TOKEN),
            priority: 0,
            price: Some(25 * ONE_TOKEN),
        },
        BuyoutAsset {
            asset: EOS,
            balance: SignedBalance::Positive(1000 * ONE_TOKEN),
            priority: 3,
            price: Some(3 * ONE_TOKEN),
        },
        BuyoutAsset {
            asset: BTC,
            balance: SignedBalance::Positive(ONE_TOKEN / 2),
            priority: 1,
            price: Some(10_000 * ONE_TOKEN),
        },
        BuyoutAsset {
            asset: ETH,
            balance: SignedBalance::Positive(10 * ONE_TOKEN),
            priority: 2,
            price: Some(250 * ONE_TOKEN),
        },
    ]
}

fn buyout(amount: u128, treasury: u128) -> Result<Vec<(u64, u128)>, TreasuryError> {
    eq_buyout(
        &account_assets(),
        EQ,
        Some(25 * ONE_TOKEN),
        SignedBalance::Positive(treasury),
        amount,
        SELL_FEE,
    )
    .map(|plan| {
        // the treasury pays the account the amount bought
        assert_eq!(plan.to_account, (EQ, amount));
        plan.from_account
    })
}

#[test]
fn eq_not_enough_colat() {
    let transfers = buyout(420 * ONE_TOKEN, 1000 * ONE_TOKEN).unwrap();
    assert_eq!(
        transfers,
        vec![(BTC, ONE_TOKEN / 2), (ETH, 10 * ONE_TOKEN), (EOS, 1000 * ONE_TOKEN)]
    );
}

#[test]
fn eq_balances_btc_eth_eos() {
    let transfers = buyout(380 * ONE_TOKEN, 1000 * ONE_TOKEN).unwrap();
    assert_eq!(
        transfers,
        vec![(BTC, ONE_TOKEN / 2), (ETH, 10 * ONE_TOKEN), (EOS, 983_333_333_335)]
    );
    assert_eq!(1000 * ONE_TOKEN - 983_333_333_335, 16_666_666_665);
}

#[test]
fn eq_balances_btc_eth() {
    let transfers = buyout(260 * ONE_TOKEN, 1000 * ONE_TOKEN).unwrap();
    assert_eq!(transfers, vec![(BTC, ONE_TOKEN / 2), (ETH, 8_600_000_000)]);
    assert_eq!(10 * ONE_TOKEN - 8_600_000_000, 1_400_000_000);
}

#[test]
fn eq_balances_btc() {
    let transfers = buyout(140 * ONE_TOKEN, 1000 * ONE_TOKEN).unwrap();
    assert_eq!(transfers, vec![(BTC, 385_000_000)]);
    assert_eq!(ONE_TOKEN / 2 - 385_000_000, 115_000_000);
}

#[test]
fn eq_no_eq() {
    assert_eq!(
        buyout(140 * ONE_TOKEN, 100 * ONE_TOKEN),
        Err(TreasuryError::InsufficientTreasuryBalance)
    );
}

#[test]
fn eq_buyout_needs_every_price() {
    let mut assets = account_assets();
    assets[2].price = None;
    assert_eq!(
        eq_buyout(
            &assets,
            EQ,
            Some(25 * ONE_TOKEN),
            SignedBalance::Positive(1000 * ONE_TOKEN),
            10,
            SELL_FEE
        )
        .map(|p| p.from_account),
        Err(TreasuryError::NoPrice)
    );
    assert_eq!(
        eq_buyout(
            &account_assets(),
            EQ,
            None,
            SignedBalance::Positive(1000 * ONE_TOKEN),
            10,
            SELL_FEE
        )
        .map(|p| p.from_account),
        Err(TreasuryError::NoPrice)
    );
}

#[test]
fn eq_buyout_skips_debts() {
    let assets = vec![
        BuyoutAsset {
            asset: BTC,
            balance: SignedBalance::Negative(ONE_TOKEN),
            priority: 1,
            price: Some(10_000 * ONE_TOKEN),
        },
        BuyoutAsset {
            asset: ETH,
            balance: SignedBalance::Positive(10 * ONE_TOKEN),
            priority: 2,
            price: Some(250 * ONE_TOKEN),
        },
    ];
    let transfers = eq_buyout(
        &assets,
        EQ,
        Some(25 * ONE_TOKEN),
        SignedBalance::Positive(1000 * ONE_TOKEN),
        10 * ONE_TOKEN,
        SELL_FEE,
    )
    .unwrap();
    assert_eq!(transfers.from_account, vec![(ETH, 1_100_000_000)]);
    assert_eq!(transfers.to_account, (EQ, 10 * ONE_TOKEN));
}

#[test]
fn sort_by_priority_is_stable() {
    let mut assets = account_assets();
    assets[0].priority = 2;
    let sorted = sort_assets_by_priority(&assets);
    let order: Vec<u64> = sorted.iter().map(|a| a.asset).collect();
    assert_eq!(order, vec![BTC, EQ, ETH, EOS]);
}

#[test]
fn calc_amount_to_exchange_should_fail_when_native_tokens() {
    assert_eq!(
        calc_amount_to_exchange(EQ, EQ, 1, price(EQ), price(EQ), SELL_FEE),
        Err(TreasuryError::WrongAssetToBuyout)
    );
}

#[test]
fn calc_amount_to_exchange_works() {
    // dot_amount = buyout_amount * (eq_price + fee) / dot_price
    // = 100 * (1 + 1*0.1) / 17 = 6.470588235
    assert_eq!(
        calc_amount_to_exchange(DOT, EQ, 100_000_000_000, price(EQ), price(DOT), SELL_FEE),
        Ok(6_470_588_235)
    );
}

#[test]
fn calc_buouyt_amount_works() {
    // buyout_amount = dot_amount * dot_price / (eq_price + fee)
    // = 100 * 17 / (1 + 1*0.1) = 1545.45455
    assert_eq!(
        calc_buyout_amount(DOT, EQ, 100_000_000_000, price(EQ), price(DOT), SELL_FEE),
        Ok(1545_454_545_454)
    );
}

#[test]
fn calc_amount_without_price_fails() {
    assert_eq!(
        calc_amount_to_exchange(BTC, EQ, 100, price(EQ), None, SELL_FEE),
        Err(TreasuryError::PriceSource)
    );
    assert_eq!(
        calc_buyout_amount(DOT, EQ, 100, None, price(DOT), SELL_FEE),
        Err(TreasuryError::PriceSource)
    );
    assert_eq!(
        calc_amount_to_exchange(DOT, EQ, u128::MAX, price(EQ), Some(1), SELL_FEE),
        Err(TreasuryError::Overflow)
    );
}

#[test]
fn ensure_buyout_not_exceeded_works() {
    //without limit
    assert_eq!(
        ensure_buyout_limit_not_exceeded(None, NOW, (0, 0), u64::MAX.into()),
        Ok((0, 0))
    );

    //with limit
    assert_eq!(ensure_buyout_limit_not_exceeded(Some(100), NOW, (0, 0), 100), Ok((0, 0)));
    assert_eq!(
        ensure_buyout_limit_not_exceeded(Some(100), NOW, (0, 0), 101),
        Err(TreasuryError::BuyoutLimitExceeded)
    );

    //with limit and buyouts of prev periods
    assert_eq!(
        ensure_buyout_limit_not_exceeded(Some(100), NOW, (100, 0), 100),
        Ok((0, NOW))
    );

    //with limit and buyouts of current period
    assert_eq!(
        ensure_buyout_limit_not_exceeded(Some(100), NOW, (80, NOW), 20),
        Ok((80, NOW))
    );
    assert_eq!(
        ensure_buyout_limit_not_exceeded(Some(100), NOW, (80, NOW), 21),
        Err(TreasuryError::BuyoutLimitExceeded)
    );
}

#[test]
fn buyout_limit_period_starts_at_day_boundary() {
    let start = (NOW / DAY) * DAY;
    assert_eq!(
        ensure_buyout_limit_not_exceeded(Some(100), NOW, (80, start), 21),
        Err(TreasuryError::BuyoutLimitExceeded)
    );
    assert_eq!(
        ensure_buyout_limit_not_exceeded(Some(100), NOW, (80, start - 1), 21),
        Ok((0, NOW))
    );
}

#[test]
fn update_buyouts_works() {
    let buyout_amount = 100u128;

    //without limit
    assert_eq!(update_buyouts(false, (0, 0), buyout_amount, NOW), (0, 0));

    //with limit
    assert_eq!(update_buyouts(true, (0, 0), buyout_amount, NOW), (buyout_amount, NOW));

    //with limit and with existed buyout
    assert_eq!(update_buyouts(true, (50, NOW), buyout_amount, NOW), (150, NOW));
}

#[test]
fn buyout_works() {
    let buyout_amount = 1000 * ONE_TOKEN;
    let exchange_amount =
        calc_amount_to_exchange(ETH, EQ, buyout_amount, price(EQ), price(ETH), SELL_FEE).unwrap();
    let plan = do_buyout(
        ETH,
        EQ,
        Amount::Buyout(buyout_amount),
        price(EQ),
        price(ETH),
        SELL_FEE,
        None,
        NOW,
        (0, 0),
    )
    .unwrap();
    assert_eq!(plan.buyout_amount, buyout_amount);
    assert_eq!(plan.exchange_amount, exchange_amount);
    assert_eq!(exchange_amount, 4_400_000_000);
    assert_eq!(plan.record, (0, 0));
}

#[test]
fn buyout_with_limit() {
    // prev buyout was 1000 EQ
    let buyout_amount = 1000 * ONE_TOKEN;
    let plan = do_buyout(
        ETH,
        EQ,
        Amount::Buyout(buyout_amount),
        price(EQ),
        price(ETH),
        SELL_FEE,
        Some(1000 * ONE_TOKEN),
        NOW,
        (1000 * ONE_TOKEN, 0),
    )
    .unwrap();
    assert_eq!(plan.record, (1000 * ONE_TOKEN, NOW));
}

#[test]
fn buyout_with_exchange_amount_works() {
    let exchange_amount = 4 * ONE_TOKEN;
    let buyout_amount =
        calc_buyout_amount(ETH, EQ, exchange_amount, price(EQ), price(ETH), SELL_FEE).unwrap();
    let plan = do_buyout(
        ETH,
        EQ,
        Amount::Exchange(exchange_amount),
        price(EQ),
        price(ETH),
        SELL_FEE,
        None,
        NOW,
        (0, 0),
    )
    .unwrap();
    assert_eq!(plan.exchange_amount, exchange_amount);
    assert_eq!(plan.buyout_amount, buyout_amount);
    assert_eq!(buyout_amount, 909_090_909_090);
}

#[test]
fn exchange_errors_name_the_short_party() {
    assert_eq!(exchange_error(Some(7), 7, 1), Some(TreasuryError::InsufficientTreasuryBalance));
    assert_eq!(exchange_error(Some(1), 7, 1), Some(TreasuryError::InsufficientAccountBalance));
    assert_eq!(exchange_error(Some(3), 7, 1), None);
    assert_eq!(exchange_error(None, 7, 1), None);
}

#[test]
fn is_enough_compares_value_in_basic_asset() {
    // 4.4 ETH at 250 is worth 1000 EQ at 1.1
    assert_eq!(is_enough(4_400_000_000, 1000 * ONE_TOKEN, price(EQ), price(ETH), SELL_FEE), Ok(true));
    assert_eq!(is_enough(4_399_999_999, 1000 * ONE_TOKEN, price(EQ), price(ETH), SELL_FEE), Ok(false));
    assert_eq!(is_enough(1, 1, price(EQ), None, SELL_FEE), Err(TreasuryError::NoPrice));
}

fn validate(amount: Amount, dot_balance: SignedBalance, limit: Option<u128>, record: (u128, u64), asset: u64) -> Result<(), ValidityError> {
    check_buyout(
        asset,
        EQ,
        amount,
        price(EQ),
        price(asset),
        SELL_FEE,
        MIN_AMOUNT_TO_BUYOUT,
        dot_balance,
        limit,
        NOW,
        record,
    )
}

#[test]
fn validate_should_fail_when_no_price_found() {
    assert_eq!(
        validate(Amount::Buyout(100 * ONE_TOKEN), SignedBalance::Positive(0), None, (0, 0), BTC),
        Err(ValidityError::Math)
    );
}

#[test]
fn validate_should_fail_when_not_enough_to_buyout() {
    assert_eq!(
        validate(Amount::Buyout(100 * ONE_TOKEN), SignedBalance::Positive(0), None, (0, 0), DOT),
        Err(ValidityError::NotEnoughToBuyout)
    );
    assert_eq!(ValidityError::NotEnoughToBuyout.code(), 0);
}

#[test]
fn validate_should_fail_when_limit_exceeded() {
    assert_eq!(
        validate(
            Amount::Buyout(100 * ONE_TOKEN),
            SignedBalance::Positive(10 * ONE_TOKEN),
            Some(100 * ONE_TOKEN),
            (80 * ONE_TOKEN, NOW),
            DOT
        ),
        Err(ValidityError::BuyoutLimitExceeded)
    );
    assert_eq!(ValidityError::BuyoutLimitExceeded.code(), 2);
}

#[test]
fn validate_should_fail_when_less_than_min_amount_to_buyout() {
    assert_eq!(
        validate(
            Amount::Buyout(100 * ONE_TOKEN - 1),
            SignedBalance::Positive(10 * ONE_TOKEN),
            None,
            (0, 0),
            DOT
        ),
        Err(ValidityError::LessThanMinBuyoutAmount)
    );
    assert_eq!(ValidityError::LessThanMinBuyoutAmount.code(), 3);
}

#[test]
fn validate_works() {
    assert_eq!(
        validate(
            Amount::Buyout(110 * ONE_TOKEN),
            SignedBalance::Positive(10 * ONE_TOKEN),
            None,
            (0, 0),
            DOT
        ),
        Ok(())
    );
    assert_eq!(ValidityError::Math.code(), 1);
}

#[test]
fn validate_should_skip_other_calls() {
    let call = TreasuryCall::UpdateBuyoutLimit { limit: None };
    assert_eq!(
        validate_call(call, EQ, price(EQ), None, SELL_FEE, MIN_AMOUNT_TO_BUYOUT, SignedBalance::Positive(0), None, NOW, (0, 0)),
        Ok(())
    );
    // a buyout call is checked
    let buyout = TreasuryCall::Buyout { asset: DOT, amount: Amount::Buyout(100 * ONE_TOKEN) };
    assert_eq!(
        validate_call(buyout, EQ, price(EQ), price(DOT), SELL_FEE, MIN_AMOUNT_TO_BUYOUT, SignedBalance::Positive(0), None, NOW, (0, 0)),
        Err(ValidityError::NotEnoughToBuyout)
    );
}
