use eq_pallets::rate::{
    aggregate_portfolio_volatilities, borrower_volatility, leverage, scale, total_interim,
    total_interim_aggregated, total_weights, totals, Cd, FinancialMetrics, InterestRateCalculator,
    InterestRateError, InterestRateSettings, TotalBalance,
};

const DOT: u64 = 0x646f74;
const EQ: u64 = 0x6571;
const USDT: u64 = 0x75736474;
const ETH: u64 = 0x657468;
const EQD: u64 = 0x657164;

const FX: i128 = 1_000_000_000_000_000_000;
const EQ_ONE: u128 = 1_000_000_000;

/// A `FixedI128` inner value from its integer part and the digits of its fraction.
fn fx(int: i128, frac: &str) -> i128 {
    let mut f: i128 = 0;
    let mut scale: i128 = FX;
    for c in frac.chars() {
        scale /= 10;
        f += (c as i128 - '0' as i128) * scale;
    }
    int * FX + f
}

/// Asserts that two `FixedI128` inner values agree to `digits` decimals.
fn assert_close(actual: i128, expected: i128, digits: u32) {
    let tol = FX / 10i128.pow(digits);
    assert!(
        (actual - expected).abs() < tol,
        "{} differs from {} at {} digits",
        actual,
        expected,
        digits
    );
}

fn currencies() -> Vec<u64> {
    vec![DOT, EQ, USDT, ETH, EQD]
}

fn price(asset: u64) -> u128 {
    match asset {
        DOT => 7 * EQ_ONE,
        EQ => EQ_ONE / 2,
        USDT => EQ_ONE,
        ETH => 1200 * EQ_ONE,
        EQD => EQ_ONE,
        _ => EQ_ONE,
    }
}

fn discount(asset: u64) -> u128 {
    match asset {
        DOT => 750_000_000,
        EQ => 500_000_000,
        USDT => EQ_ONE,
        ETH => 900_000_000,
        _ => EQ_ONE,
    }
}

fn balance(asset: u64) -> TotalBalance {
    match asset {
        DOT => TotalBalance::collateral(1_000 * EQ_ONE),
        EQ => TotalBalance::collateral(100_000 * EQ_ONE),
        USDT => TotalBalance::collateral(10_000 * EQ_ONE),
        ETH => TotalBalance::collateral(20 * EQ_ONE),
        EQD => TotalBalance::debt(50_000 * EQ_ONE),
        _ => Cd::new(0, 0),
    }
}

fn bailsmen_balance(asset: u64) -> TotalBalance {
    match asset {
        ETH => TotalBalance::collateral(10 * EQ_ONE),
        _ => Cd::new(0, 0),
    }
}

fn prices() -> Vec<u128> {
    currencies().iter().map(|&a| price(a)).collect()
}

fn discounts() -> Vec<u128> {
    currencies().iter().map(|&a| discount(a)).collect()
}

fn balances() -> Vec<TotalBalance> {
    currencies().iter().map(|&a| balance(a)).collect()
}

fn bailsmen() -> Vec<TotalBalance> {
    currencies().iter().map(|&a| bailsmen_balance(a)).collect()
}

fn settings() -> InterestRateSettings {
    InterestRateSettings::new(FX / 2, 2 * FX, 5 * FX, 15 * FX)
}

fn covariance_matrix() -> Vec<Vec<i128>> {
    vec![
        vec![fx(0, "0064"), fx(0, "0064"), fx(0, "0"), fx(0, "00288"), fx(0, "0")],
        vec![fx(0, "0064"), fx(0, "01"), fx(0, "0"), fx(0, "003"), fx(0, "0")],
        vec![fx(0, "0"), fx(0, "0"), fx(0, "00000001"), -fx(0, "0000006"), fx(0, "00000002")],
        vec![fx(0, "00288"), fx(0, "003"), -fx(0, "0000006"), fx(0, "0036"), fx(0, "0")],
        vec![fx(0, "0"), fx(0, "0"), fx(0, "00000002"), fx(0, "0"), fx(0, "00000004")],
    ]
}

fn high_volatility_covariance_matrix() -> Vec<Vec<i128>> {
    vec![
        vec![fx(0, "023000"), fx(0, "020000"), fx(0, "025000"), fx(0, "000000"), fx(0, "020000")],
        vec![fx(0, "020000"), fx(0, "028600"), fx(0, "017000"), fx(0, "000000"), fx(0, "014500")],
        vec![fx(0, "025000"), fx(0, "017000"), fx(0, "018000"), fx(0, "000000"), fx(0, "027000")],
        vec![fx(0, "000000"), fx(0, "000000"), fx(0, "000000"), fx(0, "000000"), fx(0, "000000")],
        vec![fx(0, "020000"), fx(0, "014500"), fx(0, "027000"), fx(0, "000000"), fx(0, "012000")],
    ]
}

#[test]
fn totals_test() {
    let (totals, total_weights) = totals(&bailsmen(), &balances(), &prices(), &discounts()).unwrap();

    assert_eq!(totals.borrower.collateral, fx(61_850, "0"));
    assert_eq!(totals.borrower.debt, fx(50_000, "0"));
    assert_eq!(totals.bailsman.collateral, fx(10_800, "0"));
    assert_eq!(totals.bailsman.debt, fx(0, "0"));

    assert_close(total_weights.collateral[0], fx(0, "0769"), 4);
    assert_close(total_weights.collateral[1], fx(0, "5495"), 4);
    assert_close(total_weights.collateral[2], fx(0, "1099"), 4);
    assert_close(total_weights.collateral[3], fx(0, "2637"), 4);
    assert_close(total_weights.collateral[4], fx(0, "0"), 4);

    assert_close(total_weights.debt[0], fx(0, "0"), 4);
    assert_close(total_weights.debt[1], fx(0, "0"), 4);
    assert_close(total_weights.debt[2], fx(0, "0"), 4);
    assert_close(total_weights.debt[3], fx(0, "0"), 4);
    assert_close(total_weights.debt[4], fx(1, "0"), 4);

    assert_close(total_weights.bail[0], fx(0, "0"), 4);
    assert_close(total_weights.bail[1], fx(0, "0"), 4);
    assert_close(total_weights.bail[2], fx(0, "0"), 4);
    assert_close(total_weights.bail[3], fx(1, "0"), 4);
    assert_close(total_weights.bail[4], fx(0, "0"), 4);
}

#[test]
fn aggregate_portfolio_volatilities_test() {
    let (_, total_weights) = totals(&bailsmen(), &balances(), &prices(), &discounts()).unwrap();

    let total_volatilities =
        aggregate_portfolio_volatilities(&total_weights, &covariance_matrix()).unwrap();

    assert_close(total_volatilities.collateral, fx(0, "0695"), 4);
    assert_close(total_volatilities.debt, fx(0, "000199"), 4);
    assert_close(total_volatilities.bail, fx(0, "06"), 4);
}

#[test]
fn test_scale() {
    let (totals, total_weights) = totals(&bailsmen(), &balances(), &prices(), &discounts()).unwrap();

    let scale = scale(&totals, &total_weights, &covariance_matrix(), &settings()).unwrap();

    assert_close(fx(1, "19"), scale, 2);
}

#[test]
fn test_high_volatility_scale() {
    let (totals, total_weights) = totals(&bailsmen(), &balances(), &prices(), &discounts()).unwrap();

    let scale = scale(
        &totals,
        &total_weights,
        &high_volatility_covariance_matrix(),
        &settings(),
    )
    .unwrap();

    assert_close(fx(2, "0"), scale, 2);
}

#[test]
fn leverage_test() {
    let leverage = leverage(&balances(), &prices(), &discounts()).unwrap();
    assert_close(leverage, fx(5, "2194092"), 6);
}

#[test]
fn leverage_should_error_when_zero_collateral() {
    let account_balances = vec![Cd::new(EQ_ONE, EQ_ONE)];
    let prices = vec![EQ_ONE];
    let discounts = vec![EQ_ONE];

    assert_eq!(
        leverage(&account_balances, &prices, &discounts),
        Err(InterestRateError::MathError)
    );
}

#[test]
fn test_borrower_volatility() {
    let volatility = borrower_volatility(&prices(), &balances(), &covariance_matrix()).unwrap();
    assert_close(fx(0, "04487443878"), volatility, 5);
}

#[test]
fn test_total_weights() {
    let prices = vec![fx(10000, "0"), fx(250, "0"), fx(3, "0"), fx(1, "0"), fx(25, "0")];
    let collateral = vec![fx(1, "5"), fx(30, "0"), fx(1500, "0"), fx(0, "0"), fx(0, "0")];
    let total = fx(27000, "0");

    let actual = total_weights(&collateral, &prices, total).unwrap();

    let expected = vec![
        fx(0, "555555555555555555"),
        fx(0, "277777777777777777"),
        fx(0, "166666666666666666"),
        fx(0, "0"),
        fx(0, "0"),
    ];

    assert_eq!(actual, expected);
}

#[test]
fn test_total_interim() {
    let weights = vec![
        fx(0, "04964539007"),
        fx(0, "3546099291"),
        fx(0, "07092198582"),
        fx(0, "170212766"),
        fx(0, "000000000"),
    ];
    let actual = total_interim(&weights, &covariance_matrix());

    let expected = vec![
        fx(0, "003077446809"),
        fx(0, "004374468085"),
        -fx(0, "0000001085106383"),
        fx(0, "001819531915"),
        -fx(0, "00000001276595745"),
    ];

    for i in 0..expected.len() {
        assert_close(actual[i], expected[i], 5);
    }
}

#[test]
fn test_total_interim_aggregated() {
    let (_, total_weights) = totals(&bailsmen(), &balances(), &prices(), &discounts()).unwrap();

    let total_interim = total_interim_aggregated(&total_weights, &covariance_matrix());

    let expected = vec![
        fx(0, "004768351648"),
        fx(0, "006778021978"),
        -fx(0, "0000001571428571"),
        fx(0, "002819274725"),
        fx(0, "000000002197802198"),
    ];

    for i in 0..expected.len() {
        assert_close(total_interim.collateral[i], expected[i], 5);
    }
}

#[test]
fn test_interest_rate() {
    let currencies = currencies();
    let calculator = InterestRateCalculator::create(
        &currencies,
        balances(),
        currencies.iter().map(|&a| Some(price(a))).collect(),
        discounts(),
    )
    .unwrap();
    let metrics = FinancialMetrics {
        assets: currencies.clone(),
        covariances: covariance_matrix().into_iter().flatten().collect(),
    };
    let interest_rate = calculator
        .interest_rate(&settings(), Some(&metrics), &bailsmen(), &balances())
        .unwrap();

    assert_close(interest_rate, fx(0, "226406955"), 9);
}

#[test]
fn debt_weight_should_return_error_when_zero_weight() {
    let currencies = currencies();
    let calculator = InterestRateCalculator::create(
        &currencies,
        currencies.iter().map(|_| Cd::new(EQ_ONE, 0)).collect(),
        currencies.iter().map(|_| Some(EQ_ONE)).collect(),
        currencies.iter().map(|_| EQ_ONE).collect(),
    )
    .unwrap();
    assert_eq!(calculator.debt_weights(), Err(InterestRateError::ZeroDebt));
}
