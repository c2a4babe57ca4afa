//! Interest-rate model of the rate pallet: volatilities of the borrower and
//! bailsman pools, the system risk scale, an account's leverage and
//! volatility, and the resulting prime rate.
//!
//! `FixedI128` values are inner `i128`s scaled by `10^18`, `EqFixedU128`
//! values inner `u128`s scaled by `10^9` (see [`crate::fixed`]).
use crate::fixed::{
    eq_div, eq_div_spec, eq_mul, eq_mul_spec, eq_to_fx_spec, fadd_opt, fdiv_opt,
    fixed_i128_try_sqrt, fixedi128_from_eq_fixedu128, fmul_opt, fits_i128, fsqrt_spec, fx_div, fx_mul, fx_one, lemma_fsqrt_unique, FX_ONE,
    fixed_i128_checked_div, fmul,
};
use vstd::prelude::*;

verus! {

/// Errors of the rate calculations.
#[derive(PartialEq, Eq, Structural, Debug, Clone, Copy)]
pub enum InterestRateError {
    ExternalError,
    NoPrices,
    NoFinancial,
    MathError,
    ValueError,
    ZeroDebt,
    LastUpdateInFuture,
    Overflow,
}

/// Risk model settings (all `FixedI128`).
#[derive(Debug, Clone, Copy)]
pub struct InterestRateSettings {
    pub lower_bound: i128,
    pub upper_bound: i128,
    pub n_sigma: i128,
    pub alpha: i128,
}

impl InterestRateSettings {
    pub fn new(lower_bound: i128, upper_bound: i128, n_sigma: i128, alpha: i128) -> (r: Self)
        ensures
            r.lower_bound == lower_bound,
            r.upper_bound == upper_bound,
            r.n_sigma == n_sigma,
            r.alpha == alpha,
    {
        InterestRateSettings { lower_bound, upper_bound, n_sigma, alpha }
    }
}

/// Associated collateral, debt and bail values.
#[derive(PartialEq, Eq, Debug, Clone)]
pub struct Cdb<T> {
    pub collateral: T,
    pub debt: T,
    pub bail: T,
}

/// Collateral and debt values.
#[derive(PartialEq, Eq, Debug, Clone, Copy)]
pub struct Cd<T> {
    pub collateral: T,
    pub debt: T,
}

/// Values of borrowers and of bailsmen.
#[derive(PartialEq, Eq, Debug, Clone)]
pub struct Totals<T> {
    pub borrower: Cd<T>,
    pub bailsman: Cd<T>,
}

/// Collateral and debt of one asset, as `EqFixedU128`.
pub type TotalBalance = Cd<u128>;

/// Weights of each asset in the borrower collateral, borrower debt and bailsman collateral.
pub type TotalWeights = Cdb<Vec<i128>>;

impl<T> Cd<T> {
    pub fn new(collateral: T, debt: T) -> (r: Self)
        ensures
            r.collateral == collateral,
            r.debt == debt,
    {
        Cd { collateral, debt }
    }
}

impl Cd<u128> {
    /// Only collateral, no debt.
    pub fn collateral(value: u128) -> (r: Self)
        ensures
            r.collateral == value,
            r.debt == 0,
    {
        Cd::new(value, 0)
    }

    /// Only debt, no collateral.
    pub fn debt(value: u128) -> (r: Self)
        ensures
            r.collateral == 0,
            r.debt == value,
    {
        Cd::new(0, value)
    }
}

// ---------------------------------------------------------------------------
// sumproduct
// ---------------------------------------------------------------------------

pub open spec fn min_int(a: int, b: int) -> int {
    if a < b {
        a
    } else {
        b
    }
}

/// Left fold of `acc + xs[k] * ys[k]` over the first `n` pairs, in
/// `FixedI128`; `None` where a product or a partial sum overflows.
pub open spec fn sumproduct_prefix(xs: Seq<i128>, ys: Seq<i128>, n: int) -> Option<int>
    decreases n,
{
    if n <= 0 {
        Some(0)
    } else {
        match sumproduct_prefix(xs, ys, n - 1) {
            Some(acc) => match fmul_opt(xs[n - 1] as int, ys[n - 1] as int) {
                Some(p) => fadd_opt(acc, p),
                None => None,
            },
            None => None,
        }
    }
}

/// Sum of the pairwise `FixedI128` products of `xs` and `ys`, over the
/// shorter of the two.
pub open spec fn sumproduct_spec(xs: Seq<i128>, ys: Seq<i128>) -> Option<int> {
    sumproduct_prefix(xs, ys, min_int(xs.len() as int, ys.len() as int))
}

proof fn lemma_sumproduct_prefix_some(xs: Seq<i128>, ys: Seq<i128>, m: int, n: int)
    requires
        0 <= m <= n,
        sumproduct_prefix(xs, ys, n) is Some,
    ensures
        sumproduct_prefix(xs, ys, m) is Some,
    decreases n - m,
{
    if m < n {
        lemma_sumproduct_prefix_some(xs, ys, m, n - 1);
    }
}

/// Multiplies the pairs of `xs` and `ys` and returns their sum.
pub fn sumproduct(xs: &[i128], ys: &[i128]) -> (r: i128)
    requires
        sumproduct_spec(xs@, ys@) is Some,
    ensures
        r == sumproduct_spec(xs@, ys@)->0,
{
    let n = if xs.len() < ys.len() {
        xs.len()
    } else {
        ys.len()
    };
    let mut acc: i128 = 0;
    let mut i: usize = 0;
    while i < n
        invariant
            n == min_int(xs@.len() as int, ys@.len() as int),
            0 <= i <= n,
            sumproduct_prefix(xs@, ys@, n as int) is Some,
            sumproduct_prefix(xs@, ys@, i as int) == Some(acc as int),
        decreases n - i,
    {
        proof {
            lemma_sumproduct_prefix_some(xs@, ys@, i + 1, n as int);
        }
        let p = fx_mul(xs[i], ys[i]);
        acc = acc + p;
        i = i + 1;
    }
    acc
}

// ---------------------------------------------------------------------------
// total_weights
// ---------------------------------------------------------------------------

/// `(x * p) / total` in `FixedI128`; `None` where an operation overflows.
pub open spec fn weight_opt(x: int, p: int, total: int) -> Option<int> {
    match fmul_opt(x, p) {
        Some(m) => fdiv_opt(m, total),
        None => None,
    }
}

/// Every weight of `total_weights` can be computed.
pub open spec fn total_weights_ok(xs: Seq<i128>, prices: Seq<i128>, total: int) -> bool {
    total != 0 ==> forall|k: int|
        0 <= k < min_int(xs.len() as int, prices.len() as int) ==> #[trigger] weight_opt(
            xs[k] as int,
            prices[k] as int,
            total,
        ) is Some
}

/// The weights `xs[k] * prices[k] / total`, over the shorter of `xs` and `prices`.
pub open spec fn total_weights_values(xs: Seq<i128>, prices: Seq<i128>, total: int, w: Seq<i128>) -> bool {
    &&& w.len() == min_int(xs.len() as int, prices.len() as int)
    &&& forall|k: int|
        0 <= k < w.len() ==> w[k] as int == #[trigger] weight_opt(
            xs[k] as int,
            prices[k] as int,
            total,
        )->0
}

/// Service function for volatility calculations: `w(k) = xs(k) * prices(k) / total`.
pub fn total_weights(xs: &[i128], prices: &[i128], total: i128) -> (r: Result<
    Vec<i128>,
    InterestRateError,
>)
    requires
        total_weights_ok(xs@, prices@, total as int),
    ensures
        total == 0 ==> r == Err::<Vec<i128>, InterestRateError>(InterestRateError::ValueError),
        total != 0 ==> r is Ok && total_weights_values(xs@, prices@, total as int, r->Ok_0@),
{
    if total == 0 {
        return Err(InterestRateError::ValueError);
    }
    let n = if xs.len() < prices.len() {
        xs.len()
    } else {
        prices.len()
    };
    let mut w: Vec<i128> = Vec::new();
    let mut i: usize = 0;
    while i < n
        invariant
            n == min_int(xs@.len() as int, prices@.len() as int),
            0 <= i <= n,
            total != 0,
            total_weights_ok(xs@, prices@, total as int),
            w@.len() == i,
            forall|k: int|
                0 <= k < i ==> w@[k] as int == #[trigger] weight_opt(
                    xs@[k] as int,
                    prices@[k] as int,
                    total as int,
                )->0,
        decreases n - i,
    {
        assert(weight_opt(xs@[i as int] as int, prices@[i as int] as int, total as int) is Some);
        let m = fx_mul(xs[i], prices[i]);
        let v = fx_div(m, total);
        w.push(v);
        i = i + 1;
    }
    Ok(w)
}

// ---------------------------------------------------------------------------
// total_interim
// ---------------------------------------------------------------------------

/// The rows of a matrix as sequences.
pub open spec fn matrix_view(m: Seq<Vec<i128>>) -> Seq<Seq<i128>> {
    m.map_values(|r: Vec<i128>| r@)
}

/// Every row of the covariance matrix can be multiplied with the weights.
pub open spec fn total_interim_ok(weights: Seq<i128>, cov: Seq<Seq<i128>>) -> bool {
    forall|j: int| 0 <= j < cov.len() ==> #[trigger] sumproduct_spec(cov[j], weights) is Some
}

/// Service function for volatility calculations: each row of the covariance
/// matrix multiplied with the weights.
pub fn total_interim(weights: &Vec<i128>, covariance_matrix: &Vec<Vec<i128>>) -> (r: Vec<i128>)
    requires
        total_interim_ok(weights@, matrix_view(covariance_matrix@)),
    ensures
        r@.len() == covariance_matrix@.len(),
        forall|j: int|
            0 <= j < r@.len() ==> r@[j] as int == #[trigger] sumproduct_spec(
                matrix_view(covariance_matrix@)[j],
                weights@,
            )->0,
{
    let mut r: Vec<i128> = Vec::new();
    let mut j: usize = 0;
    while j < covariance_matrix.len()
        invariant
            0 <= j <= covariance_matrix@.len(),
            total_interim_ok(weights@, matrix_view(covariance_matrix@)),
            r@.len() == j,
            forall|k: int|
                0 <= k < j ==> r@[k] as int == #[trigger] sumproduct_spec(
                    matrix_view(covariance_matrix@)[k],
                    weights@,
                )->0,
        decreases covariance_matrix@.len() - j,
    {
        assert(sumproduct_spec(matrix_view(covariance_matrix@)[j as int], weights@) is Some);
        let v = sumproduct(covariance_matrix[j].as_slice(), weights.as_slice());
        r.push(v);
        j = j + 1;
    }
    r
}


// ---------------------------------------------------------------------------
// total_interim_aggregated and the pool volatilities
// ---------------------------------------------------------------------------

/// The covariance rows multiplied with the weights `w`.
pub open spec fn interim_seq(w: Seq<i128>, cov: Seq<Seq<i128>>) -> Seq<i128> {
    Seq::new(cov.len(), |j: int| sumproduct_spec(cov[j], w)->0 as i128)
}

/// Every row fits the three weight vectors and can be multiplied with them.
pub open spec fn interim_aggregated_ok(w: Cdb<Seq<i128>>, cov: Seq<Seq<i128>>) -> bool {
    forall|j: int|
        0 <= j < cov.len() ==> {
            &&& #[trigger] cov[j].len() <= w.collateral.len()
            &&& cov[j].len() <= w.debt.len()
            &&& cov[j].len() <= w.bail.len()
            &&& sumproduct_spec(cov[j], w.collateral) is Some
            &&& sumproduct_spec(cov[j], w.debt) is Some
            &&& sumproduct_spec(cov[j], w.bail) is Some
        }
}

pub open spec fn weights_view(w: &TotalWeights) -> Cdb<Seq<i128>> {
    Cdb { collateral: w.collateral@, debt: w.debt@, bail: w.bail@ }
}

/// Interim calculations for volatility: each covariance row multiplied with
/// the collateral, debt and bail weights.
pub fn total_interim_aggregated(weights: &TotalWeights, covariance_matrix: &Vec<Vec<i128>>) -> (r:
    Cdb<Vec<i128>>)
    requires
        interim_aggregated_ok(weights_view(weights), matrix_view(covariance_matrix@)),
    ensures
        r.collateral@ == interim_seq(weights.collateral@, matrix_view(covariance_matrix@)),
        r.debt@ == interim_seq(weights.debt@, matrix_view(covariance_matrix@)),
        r.bail@ == interim_seq(weights.bail@, matrix_view(covariance_matrix@)),
{
    let mut coll: Vec<i128> = Vec::new();
    let mut debt: Vec<i128> = Vec::new();
    let mut bail: Vec<i128> = Vec::new();
    let mut j: usize = 0;
    while j < covariance_matrix.len()
        invariant
            0 <= j <= covariance_matrix@.len(),
            interim_aggregated_ok(weights_view(weights), matrix_view(covariance_matrix@)),
            coll@ == interim_seq(weights.collateral@, matrix_view(covariance_matrix@)).take(j as int),
            debt@ == interim_seq(weights.debt@, matrix_view(covariance_matrix@)).take(j as int),
            bail@ == interim_seq(weights.bail@, matrix_view(covariance_matrix@)).take(j as int),
        decreases covariance_matrix@.len() - j,
    {
        let row = covariance_matrix[j].as_slice();
        assert(matrix_view(covariance_matrix@)[j as int].len() <= weights.collateral@.len());
        let c = sumproduct(row, weights.collateral.as_slice());
        let d = sumproduct(row, weights.debt.as_slice());
        let b = sumproduct(row, weights.bail.as_slice());
        coll.push(c);
        debt.push(d);
        bail.push(b);
        j = j + 1;
        assert(coll@ =~= interim_seq(weights.collateral@, matrix_view(covariance_matrix@)).take(j as int));
        assert(debt@ =~= interim_seq(weights.debt@, matrix_view(covariance_matrix@)).take(j as int));
        assert(bail@ =~= interim_seq(weights.bail@, matrix_view(covariance_matrix@)).take(j as int));
    }
    assert(coll@ =~= interim_seq(weights.collateral@, matrix_view(covariance_matrix@)));
    assert(debt@ =~= interim_seq(weights.debt@, matrix_view(covariance_matrix@)));
    assert(bail@ =~= interim_seq(weights.bail@, matrix_view(covariance_matrix@)));
    Cdb { collateral: coll, debt, bail }
}

/// Variance of the borrower collateral pool: weights times interim values.
pub open spec fn collateral_variance(w: Cdb<Seq<i128>>, cov: Seq<Seq<i128>>) -> Option<int> {
    sumproduct_prefix(w.collateral, interim_seq(w.collateral, cov), w.collateral.len() as int)
}

/// Variance of the borrower debt pool.
pub open spec fn debt_variance(w: Cdb<Seq<i128>>, cov: Seq<Seq<i128>>) -> Option<int> {
    sumproduct_prefix(w.debt, interim_seq(w.debt, cov), w.collateral.len() as int)
}

/// Variance of the bailsman collateral pool.
pub open spec fn bail_variance(w: Cdb<Seq<i128>>, cov: Seq<Seq<i128>>) -> Option<int> {
    sumproduct_prefix(w.bail, interim_seq(w.bail, cov), w.collateral.len() as int)
}

/// The three pool variances can be computed without overflow.
pub open spec fn volatilities_ok(w: Cdb<Seq<i128>>, cov: Seq<Seq<i128>>) -> bool {
    &&& interim_aggregated_ok(w, cov)
    &&& w.collateral.len() <= cov.len()
    &&& w.collateral.len() <= w.debt.len()
    &&& w.collateral.len() <= w.bail.len()
    &&& collateral_variance(w, cov) is Some
    &&& debt_variance(w, cov) is Some
    &&& bail_variance(w, cov) is Some
}

/// Outcome of `aggregate_portfolio_volatilities`: `MathError` for the first
/// negative variance (collateral, then bail, then debt); otherwise the square
/// roots of the three variances.
pub open spec fn volatilities_result(
    w: Cdb<Seq<i128>>,
    cov: Seq<Seq<i128>>,
    r: Result<Cdb<i128>, InterestRateError>,
) -> bool {
    let vc = collateral_variance(w, cov)->0;
    let vd = debt_variance(w, cov)->0;
    let vb = bail_variance(w, cov)->0;
    if vc < 0 || vb < 0 || vd < 0 {
        r == Err::<Cdb<i128>, InterestRateError>(InterestRateError::MathError)
    } else {
        &&& r is Ok
        &&& r->Ok_0.collateral == fsqrt_spec(vc)
        &&& r->Ok_0.debt == fsqrt_spec(vd)
        &&& r->Ok_0.bail == fsqrt_spec(vb)
    }
}

/// Calculates the volatilities of the borrower collateral, borrower debt and
/// bailsman collateral pools: `sqrt(w' * C * w)` for each weight vector `w`.
pub fn aggregate_portfolio_volatilities(
    total_weights: &TotalWeights,
    covariance_matrix: &Vec<Vec<i128>>,
) -> (r: Result<Cdb<i128>, InterestRateError>)
    requires
        volatilities_ok(weights_view(total_weights), matrix_view(covariance_matrix@)),
    ensures
        volatilities_result(weights_view(total_weights), matrix_view(covariance_matrix@), r),
{
    let interim = total_interim_aggregated(total_weights, covariance_matrix);
    let n = total_weights.collateral.len();
    let mut vc: i128 = 0;
    let mut vd: i128 = 0;
    let mut vb: i128 = 0;
    let mut i: usize = 0;
    while i < n
        invariant
            n == total_weights.collateral@.len(),
            0 <= i <= n,
            volatilities_ok(weights_view(total_weights), matrix_view(covariance_matrix@)),
            interim.collateral@ == interim_seq(total_weights.collateral@, matrix_view(covariance_matrix@)),
            interim.debt@ == interim_seq(total_weights.debt@, matrix_view(covariance_matrix@)),
            interim.bail@ == interim_seq(total_weights.bail@, matrix_view(covariance_matrix@)),
            sumproduct_prefix(total_weights.collateral@, interim.collateral@, i as int) == Some(
                vc as int,
            ),
            sumproduct_prefix(total_weights.debt@, interim.debt@, i as int) == Some(vd as int),
            sumproduct_prefix(total_weights.bail@, interim.bail@, i as int) == Some(vb as int),
        decreases n - i,
    {
        proof {
            lemma_sumproduct_prefix_some(
                total_weights.collateral@,
                interim.collateral@,
                i + 1,
                n as int,
            );
            lemma_sumproduct_prefix_some(total_weights.debt@, interim.debt@, i + 1, n as int);
            lemma_sumproduct_prefix_some(total_weights.bail@, interim.bail@, i + 1, n as int);
        }
        let pc = fx_mul(total_weights.collateral[i], interim.collateral[i]);
        vc = vc + pc;
        let pb = fx_mul(total_weights.bail[i], interim.bail[i]);
        vb = vb + pb;
        let pd = fx_mul(total_weights.debt[i], interim.debt[i]);
        vd = vd + pd;
        i = i + 1;
    }
    let c = match fixed_i128_try_sqrt(vc) {
        Some(c) => c,
        None => {
            return Err(InterestRateError::MathError);
        },
    };
    let b = match fixed_i128_try_sqrt(vb) {
        Some(b) => b,
        None => {
            return Err(InterestRateError::MathError);
        },
    };
    let d = match fixed_i128_try_sqrt(vd) {
        Some(d) => d,
        None => {
            return Err(InterestRateError::MathError);
        },
    };
    proof {
        lemma_fsqrt_unique(vc as int, c as int);
        lemma_fsqrt_unique(vb as int, b as int);
        lemma_fsqrt_unique(vd as int, d as int);
    }
    Ok(Cdb { collateral: c, debt: d, bail: b })
}

// ---------------------------------------------------------------------------
// total_weights_aggregated
// ---------------------------------------------------------------------------

/// `amounts[i] * price / total` in `EqFixedU128`, converted to `FixedI128`:
/// `None` where the computation panics (index out of range, `EqFixedU128`
/// overflow), `Some(None)` where the conversion overflows.
pub open spec fn agg_weight(amounts: Seq<u128>, i: int, price: int, total: int) -> Option<
    Option<int>,
> {
    if i < 0 || i >= amounts.len() {
        None
    } else {
        let m = eq_mul_spec(amounts[i] as int, price);
        if m > u128::MAX {
            None
        } else {
            let w = eq_div_spec(m, total);
            if w > u128::MAX {
                None
            } else if eq_to_fx_spec(w) > i128::MAX {
                Some(None)
            } else {
                Some(Some(eq_to_fx_spec(w)))
            }
        }
    }
}

/// The amounts and totals that the weights of `total_weights_aggregated` are
/// computed from: borrower collateral, borrower debt, bailsman collateral.
pub struct AggInputs {
    pub cc: Seq<u128>,
    pub cd: Seq<u128>,
    pub bc: Seq<u128>,
    pub tc: int,
    pub td: int,
    pub tb: int,
}

pub open spec fn agg_inputs(ct: &Totals<Vec<u128>>, tu: &Totals<u128>) -> AggInputs {
    AggInputs {
        cc: ct.borrower.collateral@,
        cd: ct.borrower.debt@,
        bc: ct.bailsman.collateral@,
        tc: tu.borrower.collateral as int,
        td: tu.borrower.debt as int,
        tb: tu.bailsman.collateral as int,
    }
}

/// Outcome of the weights of asset `i`: collateral, then debt, then bail.
pub open spec fn agg_step(a: AggInputs, prices: Seq<u128>, i: int) -> Option<
    Result<(), InterestRateError>,
> {
    let p = prices[i] as int;
    match agg_weight(a.cc, i, p, a.tc) {
        None => None,
        Some(None) => Some(Err(InterestRateError::Overflow)),
        Some(Some(_)) => match agg_weight(a.cd, i, p, a.td) {
            None => None,
            Some(None) => Some(Err(InterestRateError::Overflow)),
            Some(Some(_)) => match agg_weight(a.bc, i, p, a.tb) {
                None => None,
                Some(None) => Some(Err(InterestRateError::Overflow)),
                Some(Some(_)) => Some(Ok(())),
            },
        },
    }
}

/// Outcome of the first `n` assets: `None` for a panic, the first error, or `Ok`.
pub open spec fn agg_outcome(a: AggInputs, prices: Seq<u128>, n: int) -> Option<
    Result<(), InterestRateError>,
>
    decreases n,
{
    if n <= 0 {
        Some(Ok(()))
    } else {
        match agg_outcome(a, prices, n - 1) {
            Some(Ok(())) => agg_step(a, prices, n - 1),
            other => other,
        }
    }
}

proof fn lemma_agg_outcome_mono(a: AggInputs, prices: Seq<u128>, m: int, n: int)
    requires
        0 <= m <= n,
    ensures
        agg_outcome(a, prices, n) is Some ==> agg_outcome(a, prices, m) is Some,
        agg_outcome(a, prices, m) matches Some(Err(e)) ==> agg_outcome(a, prices, n)
            == agg_outcome(a, prices, m),
    decreases n - m,
{
    if m < n {
        lemma_agg_outcome_mono(a, prices, m, n - 1);
    }
}

/// One of the three totals the weights are divided by is zero.
pub open spec fn agg_totals_zero(a: AggInputs) -> bool {
    a.tc == 0 || a.td == 0 || a.tb == 0
}

/// The three weight vectors of `total_weights_aggregated`.
pub open spec fn agg_weights_spec(a: AggInputs, prices: Seq<u128>) -> Cdb<Seq<i128>> {
    Cdb {
        collateral: Seq::new(
            prices.len(),
            |k: int| agg_weight(a.cc, k, prices[k] as int, a.tc)->0->0 as i128,
        ),
        debt: Seq::new(
            prices.len(),
            |k: int| agg_weight(a.cd, k, prices[k] as int, a.td)->0->0 as i128,
        ),
        bail: Seq::new(
            prices.len(),
            |k: int| agg_weight(a.bc, k, prices[k] as int, a.tb)->0->0 as i128,
        ),
    }
}

/// Result of `total_weights_aggregated` on inputs for which nothing panics.
pub open spec fn agg_result(
    a: AggInputs,
    prices: Seq<u128>,
    r: Result<TotalWeights, InterestRateError>,
) -> bool {
    if agg_totals_zero(a) {
        r == Err::<TotalWeights, InterestRateError>(InterestRateError::ValueError)
    } else {
        match agg_outcome(a, prices, prices.len() as int) {
            Some(Ok(())) => r is Ok && weights_view(&r->Ok_0) == agg_weights_spec(a, prices),
            Some(Err(e)) => r == Err::<TotalWeights, InterestRateError>(e),
            None => false,
        }
    }
}

/// `total_weights_aggregated` does not panic.
pub open spec fn agg_ok(a: AggInputs, prices: Seq<u128>) -> bool {
    !agg_totals_zero(a) ==> agg_outcome(a, prices, prices.len() as int) is Some
}

fn agg_weight_exec(amounts: &Vec<u128>, i: usize, price: u128, total: u128) -> (r: Result<
    i128,
    InterestRateError,
>)
    requires
        total != 0,
        agg_weight(amounts@, i as int, price as int, total as int) is Some,
    ensures
        agg_weight(amounts@, i as int, price as int, total as int) == Some(None::<int>) ==> r
            == Err::<i128, InterestRateError>(InterestRateError::Overflow),
        agg_weight(amounts@, i as int, price as int, total as int) matches Some(Some(v)) ==> r
            == Ok::<i128, InterestRateError>(v as i128),
{
    let m = eq_mul(amounts[i], price);
    let w = eq_div(m, total);
    match fixedi128_from_eq_fixedu128(w) {
        Some(v) => Ok(v),
        None => Err(InterestRateError::Overflow),
    }
}

/// Calculates the weights of each asset in the borrower collateral, the
/// borrower debt and the bailsman collateral: `w(i) = amount(i) * price(i) / total`.
pub fn total_weights_aggregated(
    currency_totals: &Totals<Vec<u128>>,
    totals: &Totals<u128>,
    prices: &[u128],
) -> (r: Result<TotalWeights, InterestRateError>)
    requires
        agg_ok(agg_inputs(currency_totals, totals), prices@),
    ensures
        agg_result(agg_inputs(currency_totals, totals), prices@, r),
{
    let ghost a = agg_inputs(currency_totals, totals);
    if totals.borrower.collateral == 0 || totals.borrower.debt == 0 || totals.bailsman.collateral
        == 0 {
        return Err(InterestRateError::ValueError);
    }
    let n = prices.len();
    let mut cw: Vec<i128> = Vec::new();
    let mut dw: Vec<i128> = Vec::new();
    let mut bw: Vec<i128> = Vec::new();
    let mut i: usize = 0;
    while i < n
        invariant
            n == prices@.len(),
            0 <= i <= n,
            a == agg_inputs(currency_totals, totals),
            !agg_totals_zero(a),
            agg_outcome(a, prices@, n as int) is Some,
            agg_outcome(a, prices@, i as int) == Some(Ok::<(), InterestRateError>(())),
            cw@.len() == i,
            dw@.len() == i,
            bw@.len() == i,
            forall|k: int|
                0 <= k < i ==> #[trigger] cw@[k] as int == agg_weight(
                    a.cc,
                    k,
                    prices@[k] as int,
                    a.tc,
                )->0->0,
            forall|k: int|
                0 <= k < i ==> #[trigger] dw@[k] as int == agg_weight(
                    a.cd,
                    k,
                    prices@[k] as int,
                    a.td,
                )->0->0,
            forall|k: int|
                0 <= k < i ==> #[trigger] bw@[k] as int == agg_weight(
                    a.bc,
                    k,
                    prices@[k] as int,
                    a.tb,
                )->0->0,
        decreases n - i,
    {
        proof {
            lemma_agg_outcome_mono(a, prices@, i + 1, n as int);
            assert(agg_outcome(a, prices@, i + 1) == agg_step(a, prices@, i as int));
        }
        let price = prices[i];
        let c = match agg_weight_exec(
            &currency_totals.borrower.collateral,
            i,
            price,
            totals.borrower.collateral,
        ) {
            Ok(c) => c,
            Err(e) => {
                proof {
                    lemma_agg_outcome_mono(a, prices@, i + 1, n as int);
                }
                return Err(e);
            },
        };
        let d = match agg_weight_exec(
            &currency_totals.borrower.debt,
            i,
            price,
            totals.borrower.debt,
        ) {
            Ok(d) => d,
            Err(e) => {
                proof {
                    lemma_agg_outcome_mono(a, prices@, i + 1, n as int);
                }
                return Err(e);
            },
        };
        let b = match agg_weight_exec(
            &currency_totals.bailsman.collateral,
            i,
            price,
            totals.bailsman.collateral,
        ) {
            Ok(b) => b,
            Err(e) => {
                proof {
                    lemma_agg_outcome_mono(a, prices@, i + 1, n as int);
                }
                return Err(e);
            },
        };
        assert(agg_weight(a.cc, i as int, price as int, a.tc) == Some(Some(c as int)));
        assert(agg_weight(a.cd, i as int, price as int, a.td) == Some(Some(d as int)));
        assert(agg_weight(a.bc, i as int, price as int, a.tb) == Some(Some(b as int)));
        cw.push(c);
        dw.push(d);
        bw.push(b);
        i = i + 1;
    }
    let r = Cdb { collateral: cw, debt: dw, bail: bw };
    proof {
        let sp = agg_weights_spec(a, prices@);
        assert(r.collateral@ =~= sp.collateral);
        assert(r.debt@ =~= sp.debt);
        assert(r.bail@ =~= sp.bail);
    }
    Ok(r)
}

// ---------------------------------------------------------------------------
// totals
// ---------------------------------------------------------------------------

/// `amount * price * discount` in `EqFixedU128`, converted to `FixedI128`:
/// `None` for an `EqFixedU128` overflow (a panic), `Some(None)` where the
/// conversion overflows.
pub open spec fn discounted_value(amount: int, price: int, discount: int) -> Option<Option<int>> {
    let m1 = eq_mul_spec(amount, price);
    if m1 > u128::MAX {
        None
    } else {
        let m2 = eq_mul_spec(m1, discount);
        if m2 > u128::MAX {
            None
        } else if eq_to_fx_spec(m2) > i128::MAX {
            Some(None)
        } else {
            Some(Some(eq_to_fx_spec(m2)))
        }
    }
}

/// `amount * price` in `EqFixedU128`, converted to `FixedI128`.
pub open spec fn converted_value(amount: int, price: int) -> Option<Option<int>> {
    let m = eq_mul_spec(amount, price);
    if m > u128::MAX {
        None
    } else if eq_to_fx_spec(m) > i128::MAX {
        Some(None)
    } else {
        Some(Some(eq_to_fx_spec(m)))
    }
}

/// `amount * price` in `EqFixedU128`.
pub open spec fn usd_value(amount: int, price: int) -> Option<Option<int>> {
    let m = eq_mul_spec(amount, price);
    if m > u128::MAX {
        None
    } else {
        Some(Some(m))
    }
}

/// The `which`-th quantity that `totals` accumulates for asset `k`: the
/// discounted bailsman collateral, bailsman debt, borrower collateral and
/// borrower debt (`FixedI128`), then the same four without discount
/// (`EqFixedU128`).
pub open spec fn totals_item(
    bs: Seq<TotalBalance>,
    ws: Seq<TotalBalance>,
    ps: Seq<u128>,
    ds: Seq<u128>,
    k: int,
    which: int,
) -> Option<Option<int>> {
    let b = bs[k];
    let w = ws[k];
    let p = ps[k] as int;
    let d = ds[k] as int;
    if which == 0 {
        discounted_value(b.collateral as int, p, d)
    } else if which == 1 {
        converted_value(b.debt as int, p)
    } else if which == 2 {
        discounted_value(w.collateral as int, p, d)
    } else if which == 3 {
        converted_value(w.debt as int, p)
    } else if which == 4 {
        usd_value(b.collateral as int, p)
    } else if which == 5 {
        usd_value(b.debt as int, p)
    } else if which == 6 {
        usd_value(w.collateral as int, p)
    } else {
        usd_value(w.debt as int, p)
    }
}

/// Sum of the `which`-th quantity over the first `n` assets.
pub open spec fn totals_sum(
    bs: Seq<TotalBalance>,
    ws: Seq<TotalBalance>,
    ps: Seq<u128>,
    ds: Seq<u128>,
    which: int,
    n: int,
) -> int
    decreases n,
{
    if n <= 0 {
        0
    } else {
        totals_sum(bs, ws, ps, ds, which, n - 1) + totals_item(bs, ws, ps, ds, n - 1, which)->0->0
    }
}

/// The accumulator of the `which`-th quantity holds `x`.
pub open spec fn totals_acc_fits(which: int, x: int) -> bool {
    if which < 4 {
        fits_i128(x)
    } else {
        0 <= x <= u128::MAX
    }
}

/// Outcome of the quantities `which..8` of asset `k`.
pub open spec fn totals_step(
    bs: Seq<TotalBalance>,
    ws: Seq<TotalBalance>,
    ps: Seq<u128>,
    ds: Seq<u128>,
    k: int,
    which: int,
) -> Option<Result<(), InterestRateError>>
    decreases 8 - which,
{
    if which >= 8 {
        Some(Ok(()))
    } else {
        match totals_item(bs, ws, ps, ds, k, which) {
            None => None,
            Some(None) => Some(Err(InterestRateError::Overflow)),
            Some(Some(v)) => if totals_acc_fits(which, totals_sum(bs, ws, ps, ds, which, k) + v) {
                totals_step(bs, ws, ps, ds, k, which + 1)
            } else {
                None
            },
        }
    }
}

/// Outcome of the accumulation over the first `n` assets.
pub open spec fn totals_outcome(
    bs: Seq<TotalBalance>,
    ws: Seq<TotalBalance>,
    ps: Seq<u128>,
    ds: Seq<u128>,
    n: int,
) -> Option<Result<(), InterestRateError>>
    decreases n,
{
    if n <= 0 {
        Some(Ok(()))
    } else {
        match totals_outcome(bs, ws, ps, ds, n - 1) {
            Some(Ok(())) => totals_step(bs, ws, ps, ds, n - 1, 0),
            other => other,
        }
    }
}

proof fn lemma_totals_outcome_mono(
    bs: Seq<TotalBalance>,
    ws: Seq<TotalBalance>,
    ps: Seq<u128>,
    ds: Seq<u128>,
    m: int,
    n: int,
)
    requires
        0 <= m <= n,
    ensures
        totals_outcome(bs, ws, ps, ds, n) is Some ==> totals_outcome(bs, ws, ps, ds, m) is Some,
        totals_outcome(bs, ws, ps, ds, m) matches Some(Err(e)) ==> totals_outcome(
            bs,
            ws,
            ps,
            ds,
            n,
        ) == totals_outcome(bs, ws, ps, ds, m),
    decreases n - m,
{
    if m < n {
        lemma_totals_outcome_mono(bs, ws, ps, ds, m, n - 1);
    }
}

/// Number of assets `totals` goes over.
pub open spec fn totals_len(
    bs: Seq<TotalBalance>,
    ps: Seq<u128>,
    ds: Seq<u128>,
) -> int {
    min_int(min_int(bs.len() as int, ps.len() as int), ds.len() as int)
}

/// Per-asset totals of collateral and debt of borrowers and bailsmen.
pub open spec fn totals_by_currency(bs: Seq<TotalBalance>, ws: Seq<TotalBalance>, n: int) -> (
    Seq<u128>,
    Seq<u128>,
    Seq<u128>,
    Seq<u128>,
) {
    (
        Seq::new(n as nat, |k: int| ws[k].collateral),
        Seq::new(n as nat, |k: int| ws[k].debt),
        Seq::new(n as nat, |k: int| bs[k].collateral),
        Seq::new(n as nat, |k: int| bs[k].debt),
    )
}

/// The discounted totals in USD that `totals` returns.
pub open spec fn totals_discounted_spec(
    bs: Seq<TotalBalance>,
    ws: Seq<TotalBalance>,
    ps: Seq<u128>,
    ds: Seq<u128>,
) -> Totals<i128> {
    let n = totals_len(bs, ps, ds);
    Totals {
        borrower: Cd {
            collateral: totals_sum(bs, ws, ps, ds, 2, n) as i128,
            debt: totals_sum(bs, ws, ps, ds, 3, n) as i128,
        },
        bailsman: Cd {
            collateral: totals_sum(bs, ws, ps, ds, 0, n) as i128,
            debt: totals_sum(bs, ws, ps, ds, 1, n) as i128,
        },
    }
}

/// The inputs of the weights that `totals` computes after accumulating.
pub open spec fn totals_agg_inputs(
    bs: Seq<TotalBalance>,
    ws: Seq<TotalBalance>,
    ps: Seq<u128>,
    ds: Seq<u128>,
) -> AggInputs {
    let n = totals_len(bs, ps, ds);
    let t = totals_by_currency(bs, ws, n);
    AggInputs {
        cc: t.0,
        cd: t.1,
        bc: t.2,
        tc: totals_sum(bs, ws, ps, ds, 6, n),
        td: totals_sum(bs, ws, ps, ds, 7, n),
        tb: totals_sum(bs, ws, ps, ds, 4, n),
    }
}

/// `totals` does not panic: neither while accumulating nor while computing
/// the weights.
pub open spec fn totals_ok(
    bs: Seq<TotalBalance>,
    ws: Seq<TotalBalance>,
    ps: Seq<u128>,
    ds: Seq<u128>,
) -> bool {
    let n = totals_len(bs, ps, ds);
    &&& totals_outcome(bs, ws, ps, ds, n) is Some
    &&& totals_outcome(bs, ws, ps, ds, n) == Some(Ok::<(), InterestRateError>(())) ==> agg_ok(
        totals_agg_inputs(bs, ws, ps, ds),
        ps,
    )
}

/// Result of `totals` on inputs for which nothing panics: the first
/// conversion overflow, or the discounted totals and the weights.
pub open spec fn totals_result(
    bs: Seq<TotalBalance>,
    ws: Seq<TotalBalance>,
    ps: Seq<u128>,
    ds: Seq<u128>,
    r: Result<(Totals<i128>, TotalWeights), InterestRateError>,
) -> bool {
    let n = totals_len(bs, ps, ds);
    match totals_outcome(bs, ws, ps, ds, n) {
        Some(Err(e)) => r == Err::<(Totals<i128>, TotalWeights), InterestRateError>(e),
        Some(Ok(())) => {
            let a = totals_agg_inputs(bs, ws, ps, ds);
            match r {
                Ok((t, w)) => t == totals_discounted_spec(bs, ws, ps, ds) && agg_result(
                    a,
                    ps,
                    Ok(w),
                ),
                Err(e) => agg_result(a, ps, Err(e)),
            }
        },
        None => false,
    }
}

fn discounted_value_exec(amount: u128, price: u128, discount: u128) -> (r: Result<
    i128,
    InterestRateError,
>)
    requires
        discounted_value(amount as int, price as int, discount as int) is Some,
    ensures
        discounted_value(amount as int, price as int, discount as int) == Some(None::<int>) ==> r
            == Err::<i128, InterestRateError>(InterestRateError::Overflow),
        discounted_value(amount as int, price as int, discount as int) matches Some(Some(v)) ==> r
            == Ok::<i128, InterestRateError>(v as i128),
{
    let m = eq_mul(amount, price);
    let m2 = eq_mul(m, discount);
    match fixedi128_from_eq_fixedu128(m2) {
        Some(v) => Ok(v),
        None => Err(InterestRateError::Overflow),
    }
}

fn converted_value_exec(amount: u128, price: u128) -> (r: Result<i128, InterestRateError>)
    requires
        converted_value(amount as int, price as int) is Some,
    ensures
        converted_value(amount as int, price as int) == Some(None::<int>) ==> r == Err::<
            i128,
            InterestRateError,
        >(InterestRateError::Overflow),
        converted_value(amount as int, price as int) matches Some(Some(v)) ==> r == Ok::<
            i128,
            InterestRateError,
        >(v as i128),
{
    let m = eq_mul(amount, price);
    match fixedi128_from_eq_fixedu128(m) {
        Some(v) => Ok(v),
        None => Err(InterestRateError::Overflow),
    }
}

/// Aggregates the collateral and debt of borrowers and bailsmen over the
/// assets: with the collateral discount in USD (`FixedI128`), and without it
/// as the basis of each asset's weight.
///
/// `bailsmen[k]` and `borrowers[k]` are the totals of the `k`-th asset; the
/// assets are those that `bailsmen`, `prices` and `collateral_discounts` all cover.
pub fn totals(
    bailsmen: &[TotalBalance],
    borrowers: &[TotalBalance],
    prices: &[u128],
    collateral_discounts: &[u128],
) -> (r: Result<(Totals<i128>, TotalWeights), InterestRateError>)
    requires
        bailsmen@.len() == borrowers@.len(),
        totals_ok(bailsmen@, borrowers@, prices@, collateral_discounts@),
    ensures
        totals_result(bailsmen@, borrowers@, prices@, collateral_discounts@, r),
{
    let ghost bs = bailsmen@;
    let ghost ws = borrowers@;
    let ghost ps = prices@;
    let ghost ds = collateral_discounts@;
    let mut n = bailsmen.len();
    if prices.len() < n {
        n = prices.len();
    }
    if collateral_discounts.len() < n {
        n = collateral_discounts.len();
    }
    let mut ccol: Vec<u128> = Vec::new();
    let mut cdebt: Vec<u128> = Vec::new();
    let mut bcol: Vec<u128> = Vec::new();
    let mut bdebt: Vec<u128> = Vec::new();
    let mut d_bc: i128 = 0;
    let mut d_bd: i128 = 0;
    let mut d_wc: i128 = 0;
    let mut d_wd: i128 = 0;
    let mut u_bc: u128 = 0;
    let mut u_bd: u128 = 0;
    let mut u_wc: u128 = 0;
    let mut u_wd: u128 = 0;
    let mut i: usize = 0;
    while i < n
        invariant
            n == totals_len(bs, ps, ds),
            bs == bailsmen@,
            ws == borrowers@,
            ps == prices@,
            ds == collateral_discounts@,
            bs.len() == ws.len(),
            0 <= i <= n,
            totals_outcome(bs, ws, ps, ds, n as int) is Some,
            totals_outcome(bs, ws, ps, ds, i as int) == Some(Ok::<(), InterestRateError>(())),
            ccol@ == totals_by_currency(bs, ws, i as int).0,
            cdebt@ == totals_by_currency(bs, ws, i as int).1,
            bcol@ == totals_by_currency(bs, ws, i as int).2,
            bdebt@ == totals_by_currency(bs, ws, i as int).3,
            d_bc == totals_sum(bs, ws, ps, ds, 0, i as int),
            d_bd == totals_sum(bs, ws, ps, ds, 1, i as int),
            d_wc == totals_sum(bs, ws, ps, ds, 2, i as int),
            d_wd == totals_sum(bs, ws, ps, ds, 3, i as int),
            u_bc == totals_sum(bs, ws, ps, ds, 4, i as int),
            u_bd == totals_sum(bs, ws, ps, ds, 5, i as int),
            u_wc == totals_sum(bs, ws, ps, ds, 6, i as int),
            u_wd == totals_sum(bs, ws, ps, ds, 7, i as int),
        decreases n - i,
    {
        proof {
            lemma_totals_outcome_mono(bs, ws, ps, ds, i + 1, n as int);
            assert(totals_outcome(bs, ws, ps, ds, i + 1) == totals_step(
                bs,
                ws,
                ps,
                ds,
                i as int,
                0,
            ));
            reveal_with_fuel(totals_step, 9);
        }
        let b = bailsmen[i];
        let w = borrowers[i];
        let p = prices[i];
        let d = collateral_discounts[i];
        ccol.push(w.collateral);
        cdebt.push(w.debt);
        bcol.push(b.collateral);
        bdebt.push(b.debt);
        let v0 = match discounted_value_exec(b.collateral, p, d) {
            Ok(v) => v,
            Err(e) => {
                proof {
                    lemma_totals_outcome_mono(bs, ws, ps, ds, i + 1, n as int);
                }
                return Err(e);
            },
        };
        d_bc = d_bc + v0;
        let v1 = match converted_value_exec(b.debt, p) {
            Ok(v) => v,
            Err(e) => {
                proof {
                    lemma_totals_outcome_mono(bs, ws, ps, ds, i + 1, n as int);
                }
                return Err(e);
            },
        };
        d_bd = d_bd + v1;
        let v2 = match discounted_value_exec(w.collateral, p, d) {
            Ok(v) => v,
            Err(e) => {
                proof {
                    lemma_totals_outcome_mono(bs, ws, ps, ds, i + 1, n as int);
                }
                return Err(e);
            },
        };
        d_wc = d_wc + v2;
        let v3 = match converted_value_exec(w.debt, p) {
            Ok(v) => v,
            Err(e) => {
                proof {
                    lemma_totals_outcome_mono(bs, ws, ps, ds, i + 1, n as int);
                }
                return Err(e);
            },
        };
        d_wd = d_wd + v3;
        let m4 = eq_mul(b.collateral, p);
        u_bc = u_bc + m4;
        let m5 = eq_mul(b.debt, p);
        u_bd = u_bd + m5;
        let m6 = eq_mul(w.collateral, p);
        u_wc = u_wc + m6;
        let m7 = eq_mul(w.debt, p);
        u_wd = u_wd + m7;
        i = i + 1;
        proof {
            assert(ccol@ =~= totals_by_currency(bs, ws, i as int).0);
            assert(cdebt@ =~= totals_by_currency(bs, ws, i as int).1);
            assert(bcol@ =~= totals_by_currency(bs, ws, i as int).2);
            assert(bdebt@ =~= totals_by_currency(bs, ws, i as int).3);
        }
    }
    let currency_totals = Totals {
        borrower: Cd { collateral: ccol, debt: cdebt },
        bailsman: Cd { collateral: bcol, debt: bdebt },
    };
    let totals_usd = Totals {
        borrower: Cd { collateral: u_wc, debt: u_wd },
        bailsman: Cd { collateral: u_bc, debt: u_bd },
    };
    let discounted = Totals {
        borrower: Cd { collateral: d_wc, debt: d_wd },
        bailsman: Cd { collateral: d_bc, debt: d_bd },
    };
    proof {
        assert(agg_inputs(&currency_totals, &totals_usd) == totals_agg_inputs(bs, ws, ps, ds));
    }
    let weights = total_weights_aggregated(&currency_totals, &totals_usd, prices);
    match weights {
        Ok(w) => Ok((discounted, w)),
        Err(e) => Err(e),
    }
}

// ---------------------------------------------------------------------------
// Covariances
// ---------------------------------------------------------------------------

/// Financial metrics as the rate model reads them: the assets and their
/// covariance matrix, row by row (`covariances[i * n + j]` for the assets
/// `i` and `j` of `n`), as `FixedI128`.
#[derive(Debug, Clone)]
pub struct FinancialMetrics {
    pub assets: Vec<u64>,
    pub covariances: Vec<i128>,
}

/// Position of the first `x` in `s` at or after `k`.
pub open spec fn index_of_from(s: Seq<u64>, x: u64, k: int) -> Option<int>
    decreases s.len() - k,
{
    if k < 0 || k >= s.len() {
        None
    } else if s[k] == x {
        Some(k)
    } else {
        index_of_from(s, x, k + 1)
    }
}

/// Position of the first `x` in `s`.
pub open spec fn index_of(s: Seq<u64>, x: u64) -> Option<int> {
    index_of_from(s, x, 0)
}

/// Covariance of `c1` and `c2` in the metrics: `None` when there are no
/// assets, when one of the two is not among them, or when the matrix is too short.
pub open spec fn covariance_spec(assets: Seq<u64>, covariances: Seq<i128>, c1: u64, c2: u64) -> Option<i128> {
    let n = assets.len() as int;
    if n == 0 {
        None
    } else {
        match (index_of(assets, c1), index_of(assets, c2)) {
            (Some(i1), Some(i2)) => {
                let ci = i1 * n + i2;
                if ci + 1 > covariances.len() {
                    None
                } else {
                    Some(covariances[ci])
                }
            },
            _ => None,
        }
    }
}

proof fn lemma_index_of_from_skip(s: Seq<u64>, x: u64, k: int)
    requires
        0 <= k <= s.len(),
        forall|j: int| 0 <= j < k ==> s[j] != x,
    ensures
        index_of(s, x) == index_of_from(s, x, k),
    decreases k,
{
    if k > 0 {
        lemma_index_of_from_skip(s, x, k - 1);
    }
}

proof fn lemma_index_of_from_bound(s: Seq<u64>, x: u64, k: int)
    ensures
        index_of_from(s, x, k) matches Some(j) ==> 0 <= j < s.len() && s[j] == x,
    decreases s.len() - k,
{
    if 0 <= k < s.len() && s[k] != x {
        lemma_index_of_from_bound(s, x, k + 1);
    }
}

fn position(s: &Vec<u64>, x: u64) -> (r: Option<usize>)
    ensures
        match index_of(s@, x) {
            Some(j) => r == Some(j as usize),
            None => r is None,
        },
{
    let mut k: usize = 0;
    while k < s.len()
        invariant
            0 <= k <= s@.len(),
            forall|j: int| 0 <= j < k ==> s@[j] != x,
        decreases s@.len() - k,
    {
        if s[k] == x {
            proof {
                lemma_index_of_from_skip(s@, x, k as int);
            }
            return Some(k);
        }
        k = k + 1;
    }
    proof {
        lemma_index_of_from_skip(s@, x, k as int);
    }
    None
}

/// Covariance between two assets, looked up in the financial metrics.
pub fn get_covariance(c1: u64, c2: u64, metrics: &FinancialMetrics) -> (r: Option<i128>)
    requires
        metrics.assets@.len() * metrics.assets@.len() < usize::MAX,
    ensures
        r == covariance_spec(metrics.assets@, metrics.covariances@, c1, c2),
{
    let n = metrics.assets.len();
    if n == 0 {
        return None;
    }
    proof {
        lemma_index_of_from_bound(metrics.assets@, c1, 0);
        lemma_index_of_from_bound(metrics.assets@, c2, 0);
    }
    let i1 = match position(&metrics.assets, c1) {
        Some(i) => i,
        None => {
            return None;
        },
    };
    let i2 = match position(&metrics.assets, c2) {
        Some(i) => i,
        None => {
            return None;
        },
    };
    proof {
        assert(i1 * n + i2 < n * n) by (nonlinear_arith)
            requires
                i1 < n,
                i2 < n,
        ;
    }
    let ci = i1 * n + i2;
    if ci + 1 > metrics.covariances.len() {
        return None;
    }
    Some(metrics.covariances[ci])
}

/// Every pair of the currencies has a covariance in the metrics.
pub open spec fn all_covariances(currencies: Seq<u64>, m: &FinancialMetrics) -> bool {
    forall|i: int, j: int|
        0 <= i < currencies.len() && 0 <= j < currencies.len() ==> #[trigger] covariance_spec(
            m.assets@,
            m.covariances@,
            currencies[i],
            #[trigger] currencies[j],
        ) is Some
}

/// The covariance matrix of the currencies.
pub open spec fn covariance_matrix_spec(currencies: Seq<u64>, m: &FinancialMetrics) -> Seq<Seq<i128>> {
    Seq::new(
        currencies.len(),
        |i: int|
            Seq::new(
                currencies.len(),
                |j: int| covariance_spec(m.assets@, m.covariances@, currencies[i], currencies[j])->0,
            ),
    )
}

/// Initializes the covariance matrix of `currencies` from the metrics;
/// `NoFinancial` when a covariance is missing.
pub fn covariance_matrix(currencies: &[u64], metrics: &FinancialMetrics) -> (r: Result<
    Vec<Vec<i128>>,
    InterestRateError,
>)
    requires
        metrics.assets@.len() * metrics.assets@.len() < usize::MAX,
    ensures
        all_covariances(currencies@, metrics) ==> r is Ok && matrix_view(r->Ok_0@)
            == covariance_matrix_spec(currencies@, metrics),
        !all_covariances(currencies@, metrics) ==> r == Err::<Vec<Vec<i128>>, InterestRateError>(
            InterestRateError::NoFinancial,
        ),
{
    let n = currencies.len();
    let mut rows: Vec<Vec<i128>> = Vec::new();
    let mut i: usize = 0;
    while i < n
        invariant
            n == currencies@.len(),
            metrics.assets@.len() * metrics.assets@.len() < usize::MAX,
            0 <= i <= n,
            rows@.len() == i,
            forall|a: int| 0 <= a < i ==> #[trigger] rows@[a]@.len() == n,
            forall|a: int, b: int|
                0 <= a < i && 0 <= b < n ==> Some(#[trigger] rows@[a]@[b]) == covariance_spec(
                    metrics.assets@,
                    metrics.covariances@,
                    currencies@[a],
                    currencies@[b],
                ),
        decreases n - i,
    {
        let mut row: Vec<i128> = Vec::new();
        let mut j: usize = 0;
        while j < n
            invariant
                n == currencies@.len(),
                metrics.assets@.len() * metrics.assets@.len() < usize::MAX,
                0 <= i < n,
                0 <= j <= n,
                row@.len() == j,
                forall|b: int|
                    0 <= b < j ==> Some(#[trigger] row@[b]) == covariance_spec(
                        metrics.assets@,
                        metrics.covariances@,
                        currencies@[i as int],
                        currencies@[b],
                    ),
            decreases n - j,
        {
            match get_covariance(currencies[i], currencies[j], metrics) {
                Some(c) => {
                    row.push(c);
                },
                None => {
                    proof {
                        assert(covariance_spec(
                            metrics.assets@,
                            metrics.covariances@,
                            currencies@[i as int],
                            currencies@[j as int],
                        ) is None);
                    }
                    return Err(InterestRateError::NoFinancial);
                },
            }
            j = j + 1;
        }
        rows.push(row);
        i = i + 1;
    }
    assert(matrix_view(rows@) =~~= covariance_matrix_spec(currencies@, metrics));
    assert forall|a: int, b: int|
        0 <= a < currencies@.len() && 0 <= b < currencies@.len() implies #[trigger] covariance_spec(
        metrics.assets@,
        metrics.covariances@,
        currencies@[a],
        #[trigger] currencies@[b],
    ) is Some by {
        assert(Some(rows@[a]@[b]) == covariance_spec(
            metrics.assets@,
            metrics.covariances@,
            currencies@[a],
            currencies@[b],
        ));
    }
    Ok(rows)
}

// ---------------------------------------------------------------------------
// scale
// ---------------------------------------------------------------------------

/// Debt shortfall under stress:
/// `max(0, D * (1 + n_sigma * vol_d) - C * (1 - n_sigma * vol_c))` over the
/// discounted borrower totals.
pub open spec fn insufficient_collateral(dt: &Totals<i128>, vc: int, vd: int, s: &InterestRateSettings) -> int {
    let diff = fmul(dt.borrower.debt as int, fx_one() + fmul(s.n_sigma as int, vd)) - fmul(
        dt.borrower.collateral as int,
        fx_one() - fmul(s.n_sigma as int, vc),
    );
    if diff > 0 {
        diff
    } else {
        0
    }
}

/// Bailsman funds under stress: `(C - D) * (1 - n_sigma * vol_b)` less the shortfall.
pub open spec fn stressed_funds(dt: &Totals<i128>, vc: int, vd: int, vb: int, s: &InterestRateSettings) -> int {
    fmul(
        dt.bailsman.collateral - dt.bailsman.debt,
        fx_one() - fmul(s.n_sigma as int, vb),
    ) - insufficient_collateral(dt, vc, vd, s)
}

/// No `FixedI128` operation of `scale` overflows.
pub open spec fn scale_fits(dt: &Totals<i128>, vc: int, vd: int, vb: int, s: &InterestRateSettings) -> bool {
    let ns = s.n_sigma as int;
    let cd = fmul(ns, vc);
    let dd = fmul(ns, vd);
    let bd = fmul(ns, vb);
    &&& fits_i128(cd)
    &&& fits_i128(dd)
    &&& fits_i128(fx_one() + dd)
    &&& fits_i128(fmul(dt.borrower.debt as int, fx_one() + dd))
    &&& fits_i128(fx_one() - cd)
    &&& fits_i128(fmul(dt.borrower.collateral as int, fx_one() - cd))
    &&& fits_i128(
        fmul(dt.borrower.debt as int, fx_one() + dd) - fmul(
            dt.borrower.collateral as int,
            fx_one() - cd,
        ),
    )
    &&& fits_i128(bd)
    &&& fits_i128(dt.bailsman.collateral - dt.bailsman.debt)
    &&& fits_i128(fx_one() - bd)
    &&& fits_i128(fmul(dt.bailsman.collateral - dt.bailsman.debt, fx_one() - bd))
    &&& fits_i128(stressed_funds(dt, vc, vd, vb, s))
    &&& fits_i128(dt.bailsman.collateral - stressed_funds(dt, vc, vd, vb, s))
}

/// `x` clamped to `[lo, hi]`.
pub open spec fn clamp_spec(x: int, lo: int, hi: int) -> int {
    if x < lo {
        lo
    } else if x > hi {
        hi
    } else {
        x
    }
}

/// Outcome of the risk scale for given pool volatilities: `None` where the
/// computation panics, `MathError` when the solvency cannot be computed, else
/// `max(min(1 / solvency, upper), lower)` with `solvency = C / (C - funds)`.
pub open spec fn scale_from_volatilities(
    dt: &Totals<i128>,
    vc: int,
    vd: int,
    vb: int,
    s: &InterestRateSettings,
) -> Option<Result<int, InterestRateError>> {
    if !scale_fits(dt, vc, vd, vb, s) {
        None
    } else {
        let denom = dt.bailsman.collateral - stressed_funds(dt, vc, vd, vb, s);
        match fdiv_opt(dt.bailsman.collateral as int, denom) {
            None => Some(Err(InterestRateError::MathError)),
            Some(solvency) => if s.lower_bound > s.upper_bound {
                None
            } else {
                let inv = match fdiv_opt(fx_one(), solvency) {
                    Some(v) => v,
                    None => s.upper_bound as int,
                };
                Some(Ok(clamp_spec(inv, s.lower_bound as int, s.upper_bound as int)))
            },
        }
    }
}

/// Outcome of `scale`: the pool volatilities, then the scale.
pub open spec fn scale_spec(
    dt: &Totals<i128>,
    w: Cdb<Seq<i128>>,
    cov: Seq<Seq<i128>>,
    s: &InterestRateSettings,
) -> Option<Result<int, InterestRateError>> {
    let vc = collateral_variance(w, cov)->0;
    let vd = debt_variance(w, cov)->0;
    let vb = bail_variance(w, cov)->0;
    if vc < 0 || vb < 0 || vd < 0 {
        Some(Err(InterestRateError::MathError))
    } else {
        scale_from_volatilities(dt, fsqrt_spec(vc), fsqrt_spec(vd), fsqrt_spec(vb), s)
    }
}

/// The risk scale stays between the lower and the upper bound of the settings.
pub proof fn law_scale_within_bounds(
    dt: &Totals<i128>,
    w: Cdb<Seq<i128>>,
    cov: Seq<Seq<i128>>,
    s: &InterestRateSettings,
)
    ensures
        scale_spec(dt, w, cov, s) matches Some(Ok(v)) ==> s.lower_bound <= v <= s.upper_bound,
{
}

/// The inverse solvency `1 / solvency` behind a scale, where it can be
/// computed: `solvency = C / (C - funds)` over the bailsmen's collateral `C`
/// and their stressed funds.
pub open spec fn inverse_solvency(
    dt: &Totals<i128>,
    vc: int,
    vd: int,
    vb: int,
    s: &InterestRateSettings,
) -> Option<int> {
    match fdiv_opt(
        dt.bailsman.collateral as int,
        dt.bailsman.collateral - stressed_funds(dt, vc, vd, vb, s),
    ) {
        Some(solvency) => fdiv_opt(fx_one(), solvency),
        None => None,
    }
}

/// The scale is the inverse solvency held within the bounds: the lower
/// bound where the inverse falls below it, the upper bound where it rises
/// above it (or cannot be computed), and the inverse itself in between.
pub proof fn law_scale_is_bounded_inverse_solvency(
    dt: &Totals<i128>,
    vc: int,
    vd: int,
    vb: int,
    s: &InterestRateSettings,
)
    ensures
        scale_from_volatilities(dt, vc, vd, vb, s) matches Some(Ok(v)) ==> {
            &&& s.lower_bound <= v <= s.upper_bound
            &&& match inverse_solvency(dt, vc, vd, vb, s) {
                Some(i) => {
                    &&& i < s.lower_bound ==> v == s.lower_bound
                    &&& i > s.upper_bound ==> v == s.upper_bound
                    &&& s.lower_bound <= i <= s.upper_bound ==> v == i
                },
                None => v == s.upper_bound,
            }
        },
{
}

/// The scale never rises as the solvency improves: of two scales under the
/// same settings, the one with the smaller inverse solvency is not larger.
pub proof fn law_scale_monotone_in_inverse_solvency(
    dt1: &Totals<i128>,
    vc1: int,
    vd1: int,
    vb1: int,
    dt2: &Totals<i128>,
    vc2: int,
    vd2: int,
    vb2: int,
    s: &InterestRateSettings,
)
    requires
        scale_from_volatilities(dt1, vc1, vd1, vb1, s) is Some,
        scale_from_volatilities(dt1, vc1, vd1, vb1, s)->Some_0 is Ok,
        scale_from_volatilities(dt2, vc2, vd2, vb2, s) is Some,
        scale_from_volatilities(dt2, vc2, vd2, vb2, s)->Some_0 is Ok,
        inverse_solvency(dt1, vc1, vd1, vb1, s) is Some,
        inverse_solvency(dt2, vc2, vd2, vb2, s) is Some,
        inverse_solvency(dt1, vc1, vd1, vb1, s)->Some_0 <= inverse_solvency(dt2, vc2, vd2, vb2, s)->Some_0,
    ensures
        scale_from_volatilities(dt1, vc1, vd1, vb1, s)->Some_0->Ok_0 <= scale_from_volatilities(
            dt2,
            vc2,
            vd2,
            vb2,
            s,
        )->Some_0->Ok_0,
{
    law_scale_is_bounded_inverse_solvency(dt1, vc1, vd1, vb1, s);
    law_scale_is_bounded_inverse_solvency(dt2, vc2, vd2, vb2, s);
}

/// System risk model: `scale = max(min(1 / solvency, upper_bound), lower_bound)`,
/// computed with the discounted totals.
pub fn scale(
    discounted_totals: &Totals<i128>,
    total_weights: &TotalWeights,
    covariance_matrix: &Vec<Vec<i128>>,
    settings: &InterestRateSettings,
) -> (r: Result<i128, InterestRateError>)
    requires
        volatilities_ok(weights_view(total_weights), matrix_view(covariance_matrix@)),
        scale_spec(discounted_totals, weights_view(total_weights), matrix_view(covariance_matrix@), settings) is Some,
    ensures
        match scale_spec(discounted_totals, weights_view(total_weights), matrix_view(covariance_matrix@), settings) {
            Some(Ok(v)) => r == Ok::<i128, InterestRateError>(v as i128) && fits_i128(v),
            Some(Err(e)) => r == Err::<i128, InterestRateError>(e),
            None => false,
        },
{
    let vols = match aggregate_portfolio_volatilities(total_weights, covariance_matrix) {
        Ok(v) => v,
        Err(e) => {
            return Err(e);
        },
    };
    let dt = discounted_totals;
    let ns = settings.n_sigma;
    let collateral_discount = fx_mul(ns, vols.collateral);
    let debt_discount = fx_mul(ns, vols.debt);
    let a = fx_mul(dt.borrower.debt, FX_ONE + debt_discount);
    let b = fx_mul(dt.borrower.collateral, FX_ONE - collateral_discount);
    let diff = a - b;
    let insufficient = if diff > 0 {
        diff
    } else {
        0
    };
    let bail_discount = fx_mul(ns, vols.bail);
    let stressed_bail = fx_mul(dt.bailsman.collateral - dt.bailsman.debt, FX_ONE - bail_discount);
    let funds = stressed_bail - insufficient;
    let solvency = match fixed_i128_checked_div(dt.bailsman.collateral, dt.bailsman.collateral - funds)
    {
        Some(v) => v,
        None => {
            return Err(InterestRateError::MathError);
        },
    };
    let inv = match fixed_i128_checked_div(FX_ONE, solvency) {
        Some(v) => v,
        None => settings.upper_bound,
    };
    let lo = settings.lower_bound;
    let hi = settings.upper_bound;
    if inv < lo {
        Ok(lo)
    } else if inv > hi {
        Ok(hi)
    } else {
        Ok(inv)
    }
}

// ---------------------------------------------------------------------------
// leverage
// ---------------------------------------------------------------------------

/// Discounted collateral of asset `k` in USD: `None` for a panic (an index
/// out of range or an `EqFixedU128` overflow), `Some(None)` for an overflow
/// of the conversion.
pub open spec fn lev_collateral(bs: Seq<TotalBalance>, ps: Seq<u128>, ds: Seq<u128>, k: int) -> Option<
    Option<int>,
> {
    if k >= bs.len() || k >= ds.len() {
        None
    } else {
        discounted_value(bs[k].collateral as int, ps[k] as int, ds[k] as int)
    }
}

/// Debt of asset `k` in USD.
pub open spec fn lev_debt(bs: Seq<TotalBalance>, ps: Seq<u128>, k: int) -> Option<Option<int>> {
    if k >= bs.len() {
        None
    } else {
        converted_value(bs[k].debt as int, ps[k] as int)
    }
}

/// Sums over the first `n` assets of the discounted collateral and of the debt.
pub open spec fn lev_sums(bs: Seq<TotalBalance>, ps: Seq<u128>, ds: Seq<u128>, n: int) -> (int, int)
    decreases n,
{
    if n <= 0 {
        (0, 0)
    } else {
        let prev = lev_sums(bs, ps, ds, n - 1);
        (
            prev.0 + lev_collateral(bs, ps, ds, n - 1)->0->0,
            prev.1 + lev_debt(bs, ps, n - 1)->0->0,
        )
    }
}

/// Outcome of the first `n` assets of `leverage`.
pub open spec fn lev_outcome(bs: Seq<TotalBalance>, ps: Seq<u128>, ds: Seq<u128>, n: int) -> Option<
    Result<(), InterestRateError>,
>
    decreases n,
{
    if n <= 0 {
        Some(Ok(()))
    } else {
        match lev_outcome(bs, ps, ds, n - 1) {
            Some(Ok(())) => {
                let k = n - 1;
                let prev = lev_sums(bs, ps, ds, k);
                match lev_collateral(bs, ps, ds, k) {
                    None => None,
                    Some(None) => Some(Err(InterestRateError::Overflow)),
                    Some(Some(c)) => match lev_debt(bs, ps, k) {
                        None => None,
                        Some(None) => Some(Err(InterestRateError::Overflow)),
                        Some(Some(d)) => if fits_i128(prev.0 + c) && fits_i128(prev.1 + d) {
                            Some(Ok(()))
                        } else {
                            None
                        },
                    },
                }
            },
            other => other,
        }
    }
}

proof fn lemma_lev_outcome_mono(bs: Seq<TotalBalance>, ps: Seq<u128>, ds: Seq<u128>, m: int, n: int)
    requires
        0 <= m <= n,
    ensures
        lev_outcome(bs, ps, ds, n) is Some ==> lev_outcome(bs, ps, ds, m) is Some,
        lev_outcome(bs, ps, ds, m) matches Some(Err(e)) ==> lev_outcome(bs, ps, ds, n)
            == lev_outcome(bs, ps, ds, m),
    decreases n - m,
{
    if m < n {
        lemma_lev_outcome_mono(bs, ps, ds, m, n - 1);
    }
}

/// Outcome of `leverage`: `L = C / (C - D)` with `C` the discounted
/// collateral and `D` the debt of the account, in USD.
pub open spec fn leverage_spec(bs: Seq<TotalBalance>, ps: Seq<u128>, ds: Seq<u128>) -> Option<
    Result<int, InterestRateError>,
> {
    let n = ps.len() as int;
    match lev_outcome(bs, ps, ds, n) {
        None => None,
        Some(Err(e)) => Some(Err(e)),
        Some(Ok(())) => {
            let (c, d) = lev_sums(bs, ps, ds, n);
            if !fits_i128(c - d) {
                None
            } else {
                match fdiv_opt(c, c - d) {
                    None => Some(Err(InterestRateError::MathError)),
                    Some(v) => Some(Ok(v)),
                }
            }
        },
    }
}

/// Calculates the leverage `L = C / (C - D)`, where `C` is the account's
/// collateral with discount and `D` its debt.
pub fn leverage(account_balances: &[TotalBalance], prices: &[u128], discounts: &[u128]) -> (r:
    Result<i128, InterestRateError>)
    requires
        leverage_spec(account_balances@, prices@, discounts@) is Some,
    ensures
        match leverage_spec(account_balances@, prices@, discounts@) {
            Some(Ok(v)) => r == Ok::<i128, InterestRateError>(v as i128) && fits_i128(v),
            Some(Err(e)) => r == Err::<i128, InterestRateError>(e),
            None => false,
        },
{
    let ghost bs = account_balances@;
    let ghost ps = prices@;
    let ghost ds = discounts@;
    let n = prices.len();
    let mut coll: i128 = 0;
    let mut debt: i128 = 0;
    let mut i: usize = 0;
    while i < n
        invariant
            n == ps.len(),
            bs == account_balances@,
            ps == prices@,
            ds == discounts@,
            0 <= i <= n,
            lev_outcome(bs, ps, ds, n as int) is Some,
            lev_outcome(bs, ps, ds, i as int) == Some(Ok::<(), InterestRateError>(())),
            lev_sums(bs, ps, ds, i as int) == (coll as int, debt as int),
        decreases n - i,
    {
        proof {
            lemma_lev_outcome_mono(bs, ps, ds, i + 1, n as int);
        }
        let c = match discounted_value_exec(
            account_balances[i].collateral,
            prices[i],
            discounts[i],
        ) {
            Ok(c) => c,
            Err(e) => {
                proof {
                    lemma_lev_outcome_mono(bs, ps, ds, i + 1, n as int);
                }
                return Err(e);
            },
        };
        let d = match converted_value_exec(account_balances[i].debt, prices[i]) {
            Ok(d) => d,
            Err(e) => {
                proof {
                    lemma_lev_outcome_mono(bs, ps, ds, i + 1, n as int);
                }
                return Err(e);
            },
        };
        coll = coll + c;
        debt = debt + d;
        i = i + 1;
    }
    match fixed_i128_checked_div(coll, coll - debt) {
        Some(v) => Ok(v),
        None => Err(InterestRateError::MathError),
    }
}

// ---------------------------------------------------------------------------
// borrower_volatility
// ---------------------------------------------------------------------------

/// `|x|` in `FixedI128`, saturating at the maximum.
pub open spec fn saturating_abs_spec(x: int) -> int {
    if x >= 0 {
        x
    } else if x == i128::MIN {
        i128::MAX as int
    } else {
        -x
    }
}

/// Price of asset `k` and the account's net balance in it, as `FixedI128`:
/// `None` for a panic, `Some(Err(Overflow))` where a conversion overflows.
pub open spec fn bv_item(ps: Seq<u128>, bs: Seq<TotalBalance>, k: int) -> Option<
    Result<(int, int), InterestRateError>,
> {
    let p = eq_to_fx_spec(ps[k] as int);
    if p > i128::MAX {
        Some(Err(InterestRateError::Overflow))
    } else if k >= bs.len() {
        None
    } else {
        let c = eq_to_fx_spec(bs[k].collateral as int);
        let d = eq_to_fx_spec(bs[k].debt as int);
        if c > i128::MAX || d > i128::MAX {
            Some(Err(InterestRateError::Overflow))
        } else if !fits_i128(c - d) || !fits_i128(fmul(p, c - d)) {
            None
        } else {
            Some(Ok((p, c - d)))
        }
    }
}

/// Sum over the first `n` assets of `|price * balance|`.
pub open spec fn bv_total(ps: Seq<u128>, bs: Seq<TotalBalance>, n: int) -> int
    decreases n,
{
    if n <= 0 {
        0
    } else {
        let (p, b) = bv_item(ps, bs, n - 1)->0->Ok_0;
        bv_total(ps, bs, n - 1) + saturating_abs_spec(fmul(p, b))
    }
}

/// Outcome of the first `n` assets of `borrower_volatility`.
pub open spec fn bv_outcome(ps: Seq<u128>, bs: Seq<TotalBalance>, n: int) -> Option<
    Result<(), InterestRateError>,
>
    decreases n,
{
    if n <= 0 {
        Some(Ok(()))
    } else {
        match bv_outcome(ps, bs, n - 1) {
            Some(Ok(())) => match bv_item(ps, bs, n - 1) {
                None => None,
                Some(Err(e)) => Some(Err(e)),
                Some(Ok((p, b))) => if fits_i128(
                    bv_total(ps, bs, n - 1) + saturating_abs_spec(fmul(p, b)),
                ) {
                    Some(Ok(()))
                } else {
                    None
                },
            },
            other => other,
        }
    }
}

proof fn lemma_bv_outcome_mono(ps: Seq<u128>, bs: Seq<TotalBalance>, m: int, n: int)
    requires
        0 <= m <= n,
    ensures
        bv_outcome(ps, bs, n) is Some ==> bv_outcome(ps, bs, m) is Some,
        bv_outcome(ps, bs, m) matches Some(Err(e)) ==> bv_outcome(ps, bs, n) == bv_outcome(
            ps,
            bs,
            m,
        ),
    decreases n - m,
{
    if m < n {
        lemma_bv_outcome_mono(ps, bs, m, n - 1);
    }
}

/// The weights `xs[k] * prices[k] / total` (over the shorter sequence).
pub open spec fn weights_spec(xs: Seq<i128>, prices: Seq<i128>, total: int) -> Seq<i128> {
    Seq::new(
        min_int(xs.len() as int, prices.len() as int) as nat,
        |k: int| weight_opt(xs[k] as int, prices[k] as int, total)->0 as i128,
    )
}

/// Outcome of `borrower_volatility`: `sqrt(w' * C * w)` where `w(k)` is the
/// share of asset `k` in the account's value.
pub open spec fn borrower_volatility_spec(ps: Seq<u128>, bs: Seq<TotalBalance>, cov: Seq<Seq<i128>>) -> Option<
    Result<int, InterestRateError>,
> {
    let n = ps.len() as int;
    match bv_outcome(ps, bs, n) {
        None => None,
        Some(Err(e)) => Some(Err(e)),
        Some(Ok(())) => {
            let pr = Seq::new(n as nat, |k: int| bv_item(ps, bs, k)->0->Ok_0.0 as i128);
            let xs = Seq::new(n as nat, |k: int| bv_item(ps, bs, k)->0->Ok_0.1 as i128);
            let t = bv_total(ps, bs, n);
            if t == 0 {
                Some(Err(InterestRateError::ValueError))
            } else if !total_weights_ok(xs, pr, t) {
                None
            } else {
                let w = weights_spec(xs, pr, t);
                if !total_interim_ok(w, cov) {
                    None
                } else {
                    match sumproduct_spec(w, interim_seq(w, cov)) {
                        None => None,
                        Some(v) => if v < 0 {
                            Some(Err(InterestRateError::MathError))
                        } else {
                            Some(Ok(fsqrt_spec(v)))
                        },
                    }
                }
            }
        },
    }
}

fn saturating_abs(x: i128) -> (r: i128)
    ensures
        r == saturating_abs_spec(x as int),
{
    if x >= 0 {
        x
    } else if x == i128::MIN {
        i128::MAX
    } else {
        -x
    }
}

/// Calculates the volatility of an account's portfolio.
pub fn borrower_volatility(
    prices: &Vec<u128>,
    account_balances: &Vec<TotalBalance>,
    covariance_matrix: &Vec<Vec<i128>>,
) -> (r: Result<i128, InterestRateError>)
    requires
        borrower_volatility_spec(prices@, account_balances@, matrix_view(covariance_matrix@)) is Some,
    ensures
        match borrower_volatility_spec(prices@, account_balances@, matrix_view(covariance_matrix@)) {
            Some(Ok(v)) => r == Ok::<i128, InterestRateError>(v as i128) && fits_i128(v),
            Some(Err(e)) => r == Err::<i128, InterestRateError>(e),
            None => false,
        },
{
    let ghost ps = prices@;
    let ghost bs = account_balances@;
    let n = prices.len();
    let mut balances: Vec<i128> = Vec::new();
    let mut prices_fx: Vec<i128> = Vec::new();
    let mut total: i128 = 0;
    let mut i: usize = 0;
    while i < n
        invariant
            n == ps.len(),
            ps == prices@,
            bs == account_balances@,
            0 <= i <= n,
            bv_outcome(ps, bs, n as int) is Some,
            bv_outcome(ps, bs, i as int) == Some(Ok::<(), InterestRateError>(())),
            total == bv_total(ps, bs, i as int),
            prices_fx@ == Seq::new(i as nat, |k: int| bv_item(ps, bs, k)->0->Ok_0.0 as i128),
            balances@ == Seq::new(i as nat, |k: int| bv_item(ps, bs, k)->0->Ok_0.1 as i128),
        decreases n - i,
    {
        proof {
            lemma_bv_outcome_mono(ps, bs, i + 1, n as int);
        }
        let p = match fixedi128_from_eq_fixedu128(prices[i]) {
            Some(p) => p,
            None => {
                proof {
                    lemma_bv_outcome_mono(ps, bs, i + 1, n as int);
                }
                return Err(InterestRateError::Overflow);
            },
        };
        let c = match fixedi128_from_eq_fixedu128(account_balances[i].collateral) {
            Some(c) => c,
            None => {
                proof {
                    lemma_bv_outcome_mono(ps, bs, i + 1, n as int);
                }
                return Err(InterestRateError::Overflow);
            },
        };
        let d = match fixedi128_from_eq_fixedu128(account_balances[i].debt) {
            Some(d) => d,
            None => {
                proof {
                    lemma_bv_outcome_mono(ps, bs, i + 1, n as int);
                }
                return Err(InterestRateError::Overflow);
            },
        };
        let balance = c - d;
        prices_fx.push(p);
        balances.push(balance);
        let prod = fx_mul(p, balance);
        let a = saturating_abs(prod);
        total = total + a;
        i = i + 1;
        proof {
            assert(prices_fx@ =~= Seq::new(
                i as nat,
                |k: int| bv_item(ps, bs, k)->0->Ok_0.0 as i128,
            ));
            assert(balances@ =~= Seq::new(
                i as nat,
                |k: int| bv_item(ps, bs, k)->0->Ok_0.1 as i128,
            ));
        }
    }
    let weights = match total_weights(balances.as_slice(), prices_fx.as_slice(), total) {
        Ok(w) => w,
        Err(e) => {
            return Err(e);
        },
    };
    proof {
        assert(weights@ =~= weights_spec(balances@, prices_fx@, total as int));
    }
    let interim = total_interim(&weights, covariance_matrix);
    proof {
        assert(interim@ =~= interim_seq(weights@, matrix_view(covariance_matrix@)));
    }
    let v = sumproduct(weights.as_slice(), interim.as_slice());
    match fixed_i128_try_sqrt(v) {
        Some(r) => {
            proof {
                lemma_fsqrt_unique(v as int, r as int);
            }
            Ok(r)
        },
        None => Err(InterestRateError::MathError),
    }
}

// ---------------------------------------------------------------------------
// InterestRateCalculator
// ---------------------------------------------------------------------------

/// An account's balances, prices and collateral discounts in each currency.
#[derive(Debug, Clone)]
pub struct InterestRateCalculator {
    pub currencies: Vec<u64>,
    pub account_balances: Vec<TotalBalance>,
    pub prices: Vec<u128>,
    pub collateral_discounts: Vec<u128>,
}

/// Every price is known.
pub open spec fn all_prices(prices: Seq<Option<u128>>) -> bool {
    forall|k: int| 0 <= k < prices.len() ==> (#[trigger] prices[k]) is Some
}

/// Outcome of `debt_weights` over the first `n` assets: the debt in USD of
/// each asset and its running sum.
pub open spec fn dw_outcome(bs: Seq<TotalBalance>, ps: Seq<u128>, n: int) -> Option<
    Result<int, InterestRateError>,
>
    decreases n,
{
    if n <= 0 {
        Some(Ok(0))
    } else {
        match dw_outcome(bs, ps, n - 1) {
            Some(Ok(acc)) => match converted_value(bs[n - 1].debt as int, ps[n - 1] as int) {
                None => None,
                Some(None) => Some(Err(InterestRateError::Overflow)),
                Some(Some(v)) => if fits_i128(acc + v) {
                    Some(Ok(acc + v))
                } else {
                    None
                },
            },
            other => other,
        }
    }
}

proof fn lemma_dw_outcome_mono(bs: Seq<TotalBalance>, ps: Seq<u128>, m: int, n: int)
    requires
        0 <= m <= n,
    ensures
        dw_outcome(bs, ps, n) is Some ==> dw_outcome(bs, ps, m) is Some,
        dw_outcome(bs, ps, m) matches Some(Err(e)) ==> dw_outcome(bs, ps, n) == dw_outcome(
            bs,
            ps,
            m,
        ),
    decreases n - m,
{
    if m < n {
        lemma_dw_outcome_mono(bs, ps, m, n - 1);
    }
}

/// Every value of `s` converts to `FixedI128`.
pub open spec fn all_convert(s: Seq<u128>) -> bool {
    forall|k: int| 0 <= k < s.len() ==> eq_to_fx_spec(#[trigger] s[k] as int) <= i128::MAX
}

/// `s` converted to `FixedI128`.
pub open spec fn converted_seq(s: Seq<u128>) -> Seq<i128> {
    Seq::new(s.len(), |k: int| eq_to_fx_spec(s[k] as int) as i128)
}

pub open spec fn debts_of(bs: Seq<TotalBalance>) -> Seq<u128> {
    Seq::new(bs.len(), |k: int| bs[k].debt)
}

/// Outcome of `debt_weights`: `W(i) = D(i) * P(i) / SUM(D(k) * P(k))`.
pub open spec fn debt_weights_spec(bs: Seq<TotalBalance>, ps: Seq<u128>) -> Option<
    Result<Seq<i128>, InterestRateError>,
> {
    match dw_outcome(bs, ps, min_int(bs.len() as int, ps.len() as int)) {
        None => None,
        Some(Err(e)) => Some(Err(e)),
        Some(Ok(total)) => if total == 0 {
            Some(Err(InterestRateError::ZeroDebt))
        } else if !all_convert(debts_of(bs)) || !all_convert(ps) {
            Some(Err(InterestRateError::Overflow))
        } else if !total_weights_ok(converted_seq(debts_of(bs)), converted_seq(ps), total) {
            None
        } else {
            Some(Ok(weights_spec(converted_seq(debts_of(bs)), converted_seq(ps), total)))
        },
    }
}

fn convert_all(s: &Vec<u128>) -> (r: Result<Vec<i128>, InterestRateError>)
    ensures
        all_convert(s@) ==> r is Ok && r->Ok_0@ == converted_seq(s@),
        !all_convert(s@) ==> r == Err::<Vec<i128>, InterestRateError>(InterestRateError::Overflow),
{
    let mut out: Vec<i128> = Vec::new();
    let mut k: usize = 0;
    while k < s.len()
        invariant
            0 <= k <= s@.len(),
            out@ == converted_seq(s@).take(k as int),
            forall|j: int| 0 <= j < k ==> eq_to_fx_spec(#[trigger] s@[j] as int) <= i128::MAX,
        decreases s@.len() - k,
    {
        match fixedi128_from_eq_fixedu128(s[k]) {
            Some(v) => {
                out.push(v);
            },
            None => {
                assert(eq_to_fx_spec(s@[k as int] as int) > i128::MAX);
                return Err(InterestRateError::Overflow);
            },
        }
        k = k + 1;
        assert(out@ =~= converted_seq(s@).take(k as int));
    }
    assert(out@ =~= converted_seq(s@));
    Ok(out)
}

/// Outcome of `interest_rate`: `prime_rate = alpha * L * (vola * scale)^2`.
pub open spec fn interest_rate_spec(
    c: &InterestRateCalculator,
    s: &InterestRateSettings,
    metrics: Option<&FinancialMetrics>,
    bailsmen: Seq<TotalBalance>,
    borrowers: Seq<TotalBalance>,
) -> Option<Result<int, InterestRateError>> {
    let ps = c.prices@;
    let ds = c.collateral_discounts@;
    match metrics {
        None => Some(Err(InterestRateError::NoFinancial)),
        Some(m) => if !all_covariances(c.currencies@, m) {
            Some(Err(InterestRateError::NoFinancial))
        } else if !totals_ok(bailsmen, borrowers, ps, ds) {
            None
        } else {
            let cov = covariance_matrix_spec(c.currencies@, m);
            match totals_outcome(bailsmen, borrowers, ps, ds, totals_len(bailsmen, ps, ds)) {
                None => None,
                Some(Err(e)) => Some(Err(e)),
                Some(Ok(())) => {
                    let a = totals_agg_inputs(bailsmen, borrowers, ps, ds);
                    if agg_totals_zero(a) {
                        Some(Err(InterestRateError::ValueError))
                    } else {
                        match agg_outcome(a, ps, ps.len() as int) {
                            None => None,
                            Some(Err(e)) => Some(Err(e)),
                            Some(Ok(())) => {
                                let dt = totals_discounted_spec(bailsmen, borrowers, ps, ds);
                                let w = agg_weights_spec(a, ps);
                                if !volatilities_ok(w, cov) {
                                    None
                                } else {
                                    match scale_spec(&dt, w, cov, s) {
                                        None => None,
                                        Some(Err(e)) => Some(Err(e)),
                                        Some(Ok(sc)) => match leverage_spec(
                                            c.account_balances@,
                                            ps,
                                            ds,
                                        ) {
                                            None => None,
                                            Some(Err(e)) => Some(Err(e)),
                                            Some(Ok(lev)) => match borrower_volatility_spec(
                                                ps,
                                                c.account_balances@,
                                                cov,
                                            ) {
                                                None => None,
                                                Some(Err(e)) => Some(Err(e)),
                                                Some(Ok(vola)) => {
                                                    let al = fmul(s.alpha as int, lev);
                                                    let sv = fmul(sc, vola);
                                                    let sq = fmul(sv, sv);
                                                    if fits_i128(al) && fits_i128(sv) && fits_i128(
                                                        sq,
                                                    ) && fits_i128(fmul(al, sq)) {
                                                        Some(Ok(fmul(al, sq)))
                                                    } else {
                                                        None
                                                    }
                                                },
                                            },
                                        },
                                    }
                                }
                            },
                        }
                    }
                },
            }
        },
    }
}

impl InterestRateCalculator {
    /// Collects an account's balance, the price and the collateral discount
    /// of each currency; `NoPrices` when a price is missing.
    pub fn create(
        currencies: &[u64],
        account_balances: Vec<TotalBalance>,
        prices: Vec<Option<u128>>,
        collateral_discounts: Vec<u128>,
    ) -> (r: Result<Self, InterestRateError>)
        requires
            account_balances@.len() == currencies@.len(),
            prices@.len() == currencies@.len(),
            collateral_discounts@.len() == currencies@.len(),
        ensures
            !all_prices(prices@) ==> r is Err && r->Err_0 == InterestRateError::NoPrices,
            all_prices(prices@) ==> r is Ok && {
                let c = r->Ok_0;
                &&& c.currencies@ == currencies@
                &&& c.account_balances@ == account_balances@
                &&& c.collateral_discounts@ == collateral_discounts@
                &&& c.prices@.len() == prices@.len()
                &&& forall|k: int| 0 <= k < prices@.len() ==> prices@[k] == Some(#[trigger] c.prices@[k])
            },
    {
        let mut ps: Vec<u128> = Vec::new();
        let mut k: usize = 0;
        while k < prices.len()
            invariant
                0 <= k <= prices@.len(),
                ps@.len() == k,
                forall|j: int| 0 <= j < k ==> prices@[j] == Some(#[trigger] ps@[j]),
            decreases prices@.len() - k,
        {
            match prices[k] {
                Some(p) => {
                    ps.push(p);
                },
                None => {
                    return Err(InterestRateError::NoPrices);
                },
            }
            k = k + 1;
        }
        let mut cur: Vec<u64> = Vec::new();
        let mut j: usize = 0;
        while j < currencies.len()
            invariant
                0 <= j <= currencies@.len(),
                cur@ == currencies@.take(j as int),
            decreases currencies@.len() - j,
        {
            cur.push(currencies[j]);
            j = j + 1;
            assert(cur@ =~= currencies@.take(j as int));
        }
        assert(cur@ =~= currencies@);
        assert forall|k: int| 0 <= k < prices@.len() implies (#[trigger] prices@[k]) is Some by {
            assert(prices@[k] == Some(ps@[k]));
        }
        Ok(InterestRateCalculator {
            currencies: cur,
            account_balances,
            prices: ps,
            collateral_discounts,
        })
    }

    /// Calculates the prime rate of the account:
    /// `prime_rate = alpha * L * (vola * scale)^2`.
    ///
    /// `bailsmen[k]` and `borrowers[k]` are the totals of all bailsmen and all
    /// borrowers in the `k`-th currency; `fin_metrics` the financial metrics,
    /// if any.
    pub fn interest_rate(
        &self,
        settings: &InterestRateSettings,
        fin_metrics: Option<&FinancialMetrics>,
        bailsmen: &[TotalBalance],
        borrowers: &[TotalBalance],
    ) -> (r: Result<i128, InterestRateError>)
        requires
            bailsmen@.len() == borrowers@.len(),
            fin_metrics matches Some(m) ==> m.assets@.len() * m.assets@.len() < usize::MAX,
            interest_rate_spec(self, settings, fin_metrics, bailsmen@, borrowers@) is Some,
        ensures
            match interest_rate_spec(self, settings, fin_metrics, bailsmen@, borrowers@) {
                Some(Ok(v)) => r == Ok::<i128, InterestRateError>(v as i128) && fits_i128(v),
                Some(Err(e)) => r == Err::<i128, InterestRateError>(e),
                None => false,
            },
    {
        let metrics = match fin_metrics {
            Some(m) => m,
            None => {
                return Err(InterestRateError::NoFinancial);
            },
        };
        let cov = match covariance_matrix(self.currencies.as_slice(), metrics) {
            Ok(c) => c,
            Err(e) => {
                return Err(e);
            },
        };
        let (dt, tw) = match totals(
            bailsmen,
            borrowers,
            self.prices.as_slice(),
            self.collateral_discounts.as_slice(),
        ) {
            Ok(t) => t,
            Err(e) => {
                return Err(e);
            },
        };
        let ghost bs = bailsmen@;
        let ghost ws = borrowers@;
        let ghost ps = self.prices@;
        let ghost ds = self.collateral_discounts@;
        let ghost covs = covariance_matrix_spec(self.currencies@, metrics);
        let ghost a = totals_agg_inputs(bs, ws, ps, ds);
        assert(matrix_view(cov@) == covs);
        assert(dt == totals_discounted_spec(bs, ws, ps, ds));
        assert(weights_view(&tw) == agg_weights_spec(a, ps));
        let sc = match scale(&dt, &tw, &cov, settings) {
            Ok(v) => v,
            Err(e) => {
                return Err(e);
            },
        };
        let lev = match leverage(
            self.account_balances.as_slice(),
            self.prices.as_slice(),
            self.collateral_discounts.as_slice(),
        ) {
            Ok(v) => v,
            Err(e) => {
                return Err(e);
            },
        };
        let vola = match borrower_volatility(&self.prices, &self.account_balances, &cov) {
            Ok(v) => v,
            Err(e) => {
                return Err(e);
            },
        };
        assert(scale_spec(&dt, weights_view(&tw), matrix_view(cov@), settings) == Some(
            Ok::<int, InterestRateError>(sc as int),
        ));
        assert(leverage_spec(self.account_balances@, ps, ds) == Some(
            Ok::<int, InterestRateError>(lev as int),
        ));
        assert(borrower_volatility_spec(ps, self.account_balances@, covs) == Some(
            Ok::<int, InterestRateError>(vola as int),
        ));
        let al = fx_mul(settings.alpha, lev);
        let sv = fx_mul(sc, vola);
        let sq = fx_mul(sv, sv);
        Ok(fx_mul(al, sq))
    }

    /// Calculates the account's debt weight in each asset:
    /// `W(i) = D(i) * P(i) / SUM(D(k) * P(k))`; `ZeroDebt` without debt.
    pub fn debt_weights(&self) -> (r: Result<Vec<i128>, InterestRateError>)
        requires
            debt_weights_spec(self.account_balances@, self.prices@) is Some,
        ensures
            match debt_weights_spec(self.account_balances@, self.prices@) {
                Some(Ok(w)) => r is Ok && r->Ok_0@ == w,
                Some(Err(e)) => r == Err::<Vec<i128>, InterestRateError>(e),
                None => false,
            },
    {
        let ghost bs = self.account_balances@;
        let ghost ps = self.prices@;
        let n = if self.account_balances.len() < self.prices.len() {
            self.account_balances.len()
        } else {
            self.prices.len()
        };
        let mut total: i128 = 0;
        let mut i: usize = 0;
        while i < n
            invariant
                n == min_int(bs.len() as int, ps.len() as int),
                bs == self.account_balances@,
                ps == self.prices@,
                0 <= i <= n,
                dw_outcome(bs, ps, n as int) is Some,
                dw_outcome(bs, ps, i as int) == Some(Ok::<int, InterestRateError>(total as int)),
            decreases n - i,
        {
            proof {
                lemma_dw_outcome_mono(bs, ps, i + 1, n as int);
            }
            let v = match converted_value_exec(self.account_balances[i].debt, self.prices[i]) {
                Ok(v) => v,
                Err(e) => {
                    proof {
                        lemma_dw_outcome_mono(bs, ps, i + 1, n as int);
                    }
                    return Err(e);
                },
            };
            total = total + v;
            i = i + 1;
        }
        if total == 0 {
            return Err(InterestRateError::ZeroDebt);
        }
        let mut debts: Vec<u128> = Vec::new();
        let mut k: usize = 0;
        while k < self.account_balances.len()
            invariant
                bs == self.account_balances@,
                0 <= k <= bs.len(),
                debts@ == debts_of(bs).take(k as int),
            decreases bs.len() - k,
        {
            debts.push(self.account_balances[k].debt);
            k = k + 1;
            assert(debts@ =~= debts_of(bs).take(k as int));
        }
        assert(debts@ =~= debts_of(bs));
        let account_debts = match convert_all(&debts) {
            Ok(v) => v,
            Err(e) => {
                return Err(e);
            },
        };
        let prices = match convert_all(&self.prices) {
            Ok(v) => v,
            Err(e) => {
                return Err(e);
            },
        };
        let w = total_weights(account_debts.as_slice(), prices.as_slice(), total);
        match w {
            Ok(w) => {
                proof {
                    assert(w@ =~= weights_spec(account_debts@, prices@, total as int));
                }
                Ok(w)
            },
            Err(e) => Err(e),
        }
    }
}

} // verus!
