//! Interest fee of the rate pallet: the fee an account owes for the time
//! since its last update, split between the treasury, the bailsmen and the
//! lenders; and the decisions around charging it.
use crate::fixed::{
    fadd_opt, fdiv, fdiv_opt, fits_i128, fixed_i128_checked_div, fixed_i128_from_permill,
    fixed_i128_from_u64, fixedi128_from_eq_fixedu128, fmul, fmul_opt, fx_div, fx_mul, fx_one,
    permill_parts, FX_ONE,
};
use crate::rate::InterestRateError;
use vstd::prelude::*;

verus! {

/// Seconds in one year (365.25 days).
pub const SECONDS_IN_YEAR: u64 = 31_557_600;

/// The synthetic dollar asset, `eqd`.
pub const EQD: u64 = 0x657164;

/// An asset as the fee calculation reads it: its id and whether it is a
/// physical asset (lent out by the lending pool).
#[derive(PartialEq, Eq, Structural, Debug, Clone, Copy)]
pub struct FeeAsset {
    pub id: u64,
    pub physical: bool,
}

/// Fee rates, each as parts per million.
#[derive(PartialEq, Eq, Structural, Debug, Clone, Copy)]
pub struct FeeSettings {
    /// Treasury fee rate.
    pub treasury_fee: u32,
    /// Base bailsman fee.
    pub base_bailsman_fee: u32,
    /// Base lender fee.
    pub base_lender_fee: u32,
    /// Lender part of the prime rate.
    pub lender_part: u32,
}

/// Fee in the basic asset for the treasury, the bailsmen and the lenders of each asset.
#[derive(Debug, Clone)]
pub struct Fee {
    pub basic_asset: u64,
    pub treasury: u128,
    pub bailsman: u128,
    pub lender: Vec<(u64, u128)>,
}

/// Sum of the lender fees.
pub open spec fn lender_sum(lender: Seq<(u64, u128)>) -> int
    decreases lender.len(),
{
    if lender.len() == 0 {
        0
    } else {
        lender_sum(lender.drop_last()) + lender.last().1
    }
}

/// `total_fee` does not overflow: neither `bailsman + treasury`, nor a
/// partial sum of the lender fees, nor the total.
pub open spec fn total_fee_ok(f: &Fee) -> bool {
    &&& f.bailsman + f.treasury <= u128::MAX
    &&& forall|k: int|
        0 <= k <= f.lender@.len() ==> #[trigger] lender_sum(f.lender@.take(k)) <= u128::MAX
    &&& f.bailsman + f.treasury + lender_sum(f.lender@) <= u128::MAX
}

impl Fee {
    /// The whole fee: bailsman, treasury and lender parts.
    pub fn total_fee(&self) -> (r: u128)
        requires
            total_fee_ok(self),
        ensures
            r == self.bailsman + self.treasury + lender_sum(self.lender@),
    {
        let first = self.bailsman + self.treasury;
        let mut acc: u128 = 0;
        let mut k: usize = 0;
        while k < self.lender.len()
            invariant
                0 <= k <= self.lender@.len(),
                total_fee_ok(self),
                acc == lender_sum(self.lender@.take(k as int)),
            decreases self.lender@.len() - k,
        {
            assert(self.lender@.take(k + 1).drop_last() =~= self.lender@.take(k as int));
            assert(lender_sum(self.lender@.take(k + 1)) <= u128::MAX);
            acc = acc + self.lender[k].1;
            k = k + 1;
        }
        assert(self.lender@.take(k as int) =~= self.lender@);
        first + acc
    }
}

// ---------------------------------------------------------------------------
// Conversions between balances and fixed-point numbers
// ---------------------------------------------------------------------------

/// A balance with nine decimals as `FixedI128`: `None` where it exceeds the type.
pub fn fixedi128_from_balance(b: u128) -> (r: Option<i128>)
    ensures
        r == (if b * 1_000_000_000 <= i128::MAX {
            Some((b * 1_000_000_000) as i128)
        } else {
            None
        }),
{
    fixedi128_from_eq_fixedu128(b)
}

/// A `FixedI64` (nine decimals) as `FixedI128`.
pub fn fixedi128_from_fixedi64(x: i64) -> (r: i128)
    ensures
        r == x * 1_000_000_000,
{
    proof {
        assert(i64::MIN * 1_000_000_000 <= x * 1_000_000_000 <= i64::MAX * 1_000_000_000)
            by (nonlinear_arith);
    }
    (x as i128) * 1_000_000_000
}

/// A `FixedI128` as a balance with nine decimals, the further digits dropped.
pub open spec fn balance_from_fixed_spec(x: int) -> Option<int> {
    if x < 0 {
        None
    } else {
        Some(x / 1_000_000_000)
    }
}

/// A `FixedI128` as a balance with nine decimals: `None` for a negative value.
pub fn balance_from_fixedi128(x: i128) -> (r: Option<u128>)
    ensures
        match balance_from_fixed_spec(x as int) {
            Some(v) => r == Some(v as u128),
            None => r is None,
        },
{
    if x < 0 {
        None
    } else {
        Some((x / 1_000_000_000) as u128)
    }
}

// ---------------------------------------------------------------------------
// calc_fee
// ---------------------------------------------------------------------------

/// Debt weight of the synthetic dollar: the weight of the first `EQD` among
/// the assets, zero when it is not among them.
pub open spec fn eqd_weight_from(weights: Seq<i128>, assets: Seq<FeeAsset>, k: int) -> int
    decreases weights.len() - k,
{
    if k < 0 || k >= weights.len() || k >= assets.len() {
        0
    } else if assets[k].id == EQD {
        weights[k] as int
    } else {
        eqd_weight_from(weights, assets, k + 1)
    }
}

pub open spec fn year_fx() -> int {
    SECONDS_IN_YEAR * fx_one()
}

pub open spec fn permill_fx(parts: u32) -> int {
    permill_parts(parts as int) * 1_000_000_000_000
}

/// `Coeff = Debt * (t / T) / price`: the debt in the basic asset scaled by
/// the share of a year elapsed. `None` where the computation panics.
pub open spec fn coeff_spec(debt_fx: int, elapsed: int, price_fx: int) -> Option<int> {
    match fdiv_opt(elapsed * fx_one(), year_fx()) {
        None => None,
        Some(q) => match fmul_opt(debt_fx, q) {
            None => None,
            Some(m) => if price_fx == 0 {
                None
            } else {
                fdiv_opt(m, price_fx)
            },
        },
    }
}

/// The bailsman fee: base fee, the insurance part and the synthetic dollar
/// part of the prime rate. `None` where the computation panics.
pub open spec fn bailsman_fee_spec(coeff: int, eqd_w: int, prime: int, s: FeeSettings) -> Option<int> {
    let lp = permill_fx(s.lender_part);
    let base = fmul(coeff, permill_fx(s.base_bailsman_fee));
    let ins1 = fmul(coeff, fx_one() - lp);
    let ins = fmul(ins1, prime);
    let e1 = fmul(coeff, eqd_w);
    let e2 = fmul(e1, lp);
    let eqd = fmul(e2, prime);
    if fits_i128(base) && fits_i128(fx_one() - lp) && fits_i128(ins1) && fits_i128(ins)
        && fits_i128(e1) && fits_i128(e2) && fits_i128(eqd) && fits_i128(base + ins) && fits_i128(
        base + ins + eqd,
    ) {
        Some(base + ins + eqd)
    } else {
        None
    }
}

/// Lender fee of an asset with debt weight `w`:
/// `Coeff * w * (base_lender_fee + lender_part * prime)`, as a balance.
/// `None` where the computation panics, `Some(None)` for a negative fee.
pub open spec fn lender_fee_spec(coeff: int, w: int, prime: int, s: FeeSettings) -> Option<
    Option<int>,
> {
    let lp = permill_fx(s.lender_part);
    let cw = fmul(coeff, w);
    let lpp = fmul(lp, prime);
    let rate = permill_fx(s.base_lender_fee) + lpp;
    if fits_i128(cw) && fits_i128(lpp) && fits_i128(rate) && fits_i128(fmul(cw, rate)) {
        match balance_from_fixed_spec(fmul(cw, rate)) {
            Some(v) => Some(Some(v)),
            None => Some(None),
        }
    } else {
        None
    }
}

/// Lender fees of the physical assets among the first `n`: `None` where the
/// computation panics, `ValueError` for the first negative fee.
pub open spec fn lender_fees_prefix(
    weights: Seq<i128>,
    assets: Seq<FeeAsset>,
    coeff: int,
    prime: int,
    s: FeeSettings,
    n: int,
) -> Option<Result<Seq<(u64, u128)>, InterestRateError>>
    decreases n,
{
    if n <= 0 {
        Some(Ok(Seq::empty()))
    } else {
        match lender_fees_prefix(weights, assets, coeff, prime, s, n - 1) {
            Some(Ok(fees)) => if !assets[n - 1].physical {
                Some(Ok(fees))
            } else {
                match lender_fee_spec(coeff, weights[n - 1] as int, prime, s) {
                    None => None,
                    Some(None) => Some(Err(InterestRateError::ValueError)),
                    Some(Some(v)) => if v <= u128::MAX {
                        Some(Ok(fees.push((assets[n - 1].id, v as u128))))
                    } else {
                        None
                    },
                }
            },
            other => other,
        }
    }
}

proof fn lemma_lender_fees_mono(
    weights: Seq<i128>,
    assets: Seq<FeeAsset>,
    coeff: int,
    prime: int,
    s: FeeSettings,
    m: int,
    n: int,
)
    requires
        0 <= m <= n,
    ensures
        lender_fees_prefix(weights, assets, coeff, prime, s, n) is Some ==> lender_fees_prefix(
            weights,
            assets,
            coeff,
            prime,
            s,
            m,
        ) is Some,
        lender_fees_prefix(weights, assets, coeff, prime, s, m) matches Some(Err(e))
            ==> lender_fees_prefix(weights, assets, coeff, prime, s, n) == lender_fees_prefix(
            weights,
            assets,
            coeff,
            prime,
            s,
            m,
        ),
    decreases n - m,
{
    if m < n {
        lemma_lender_fees_mono(weights, assets, coeff, prime, s, m, n - 1);
    }
}

/// The fee of an account, from what the rate pallet reads: its debt weights
/// (or the error that computing them gave), its debt in the basic asset's
/// unit (`None` when it could not be read), the seconds of its last update
/// and now, the price of the basic asset (`FixedI64`, `None` when unknown)
/// and its prime rate (or the error that computing it gave).
pub struct FeeInputs {
    pub assets: Seq<FeeAsset>,
    pub weights: Result<Seq<i128>, InterestRateError>,
    pub debt: Option<u128>,
    pub last_update: u64,
    pub now: u64,
    pub price: Option<i64>,
    pub prime: Result<i128, InterestRateError>,
    pub settings: FeeSettings,
}

/// Outcome of `calc_fee`: `None` where the computation panics, else the first
/// error or the treasury fee, the bailsman fee and the lender fees.
pub open spec fn calc_fee_spec(i: FeeInputs) -> Option<
    Result<(int, int, Seq<(u64, u128)>), InterestRateError>,
> {
    match i.weights {
        Err(e) => Some(Err(e)),
        Ok(weights) => match i.debt {
            None => Some(Err(InterestRateError::ExternalError)),
            Some(debt) => if debt * 1_000_000_000 > i128::MAX {
                Some(Err(InterestRateError::Overflow))
            } else if i.now < i.last_update {
                None
            } else {
                match i.price {
                    None => Some(Err(InterestRateError::NoPrices)),
                    Some(price) => match coeff_spec(
                        debt * 1_000_000_000,
                        i.now - i.last_update,
                        price * 1_000_000_000,
                    ) {
                        None => None,
                        Some(coeff) => match i.prime {
                            Err(e) => Some(Err(e)),
                            Ok(prime) => {
                                let s = i.settings;
                                let tf = fmul(coeff, permill_fx(s.treasury_fee));
                                if !fits_i128(tf) {
                                    None
                                } else {
                                    match bailsman_fee_spec(
                                        coeff,
                                        eqd_weight_from(weights, i.assets, 0),
                                        prime as int,
                                        s,
                                    ) {
                                        None => None,
                                        Some(bf) => match lender_fees_prefix(
                                            weights,
                                            i.assets,
                                            coeff,
                                            prime as int,
                                            s,
                                            if weights.len() < i.assets.len() {
                                                weights.len() as int
                                            } else {
                                                i.assets.len() as int
                                            },
                                        ) {
                                            None => None,
                                            Some(Err(e)) => Some(Err(e)),
                                            Some(Ok(lender)) => match (
                                                balance_from_fixed_spec(tf),
                                                balance_from_fixed_spec(bf),
                                            ) {
                                                (Some(t), Some(b)) => Some(Ok((t, b, lender))),
                                                _ => Some(Err(InterestRateError::Overflow)),
                                            },
                                        },
                                    }
                                }
                            },
                        },
                    },
                }
            },
        },
    }
}

/// A result with the vector seen as a sequence.
pub open spec fn result_view(r: Result<Vec<i128>, InterestRateError>) -> Result<Seq<i128>, InterestRateError> {
    match r {
        Ok(w) => Ok(w@),
        Err(e) => Err(e),
    }
}

fn eqd_weight(weights: &Vec<i128>, assets: &[FeeAsset]) -> (r: i128)
    ensures
        r == eqd_weight_from(weights@, assets@, 0),
{
    let mut k: usize = 0;
    while k < weights.len() && k < assets.len()
        invariant
            0 <= k <= weights@.len(),
            eqd_weight_from(weights@, assets@, 0) == eqd_weight_from(weights@, assets@, k as int),
        decreases weights@.len() - k,
    {
        if assets[k].id == EQD {
            return weights[k];
        }
        k = k + 1;
    }
    0
}

/// Calculates the fee in the basic asset for the treasury, the bailsmen and
/// the lending pools:
/// `Coeff = Debt * (t / T) / price`, with `t` the seconds elapsed since the
/// last update and `T` a year; the treasury gets `Coeff * treasury_fee`, the
/// bailsmen `Coeff * (base + (1 - lender_part) * prime + eqd_weight *
/// lender_part * prime)`, the lenders of each physical asset `Coeff * weight *
/// (base_lender_fee + lender_part * prime)`.
pub fn calc_fee(
    assets: &[FeeAsset],
    basic_asset: u64,
    debt_weights: Result<Vec<i128>, InterestRateError>,
    debt: Option<u128>,
    last_update: u64,
    now: u64,
    basic_asset_price: Option<i64>,
    prime_rate: Result<i128, InterestRateError>,
    settings: FeeSettings,
) -> (r: Result<Fee, InterestRateError>)
    requires
        calc_fee_spec(
            FeeInputs {
                assets: assets@,
                weights: result_view(debt_weights),
                debt,
                last_update,
                now,
                price: basic_asset_price,
                prime: prime_rate,
                settings,
            },
        ) is Some,
    ensures
        match calc_fee_spec(
            FeeInputs {
                assets: assets@,
                weights: result_view(debt_weights),
                debt,
                last_update,
                now,
                price: basic_asset_price,
                prime: prime_rate,
                settings,
            },
        ) {
            Some(Ok((t, b, lender))) => r is Ok && r->Ok_0.basic_asset == basic_asset
                && r->Ok_0.treasury == t && r->Ok_0.bailsman == b && r->Ok_0.lender@ == lender,
            Some(Err(e)) => r is Err && r->Err_0 == e,
            None => false,
        },
{
    let weights = match debt_weights {
        Ok(w) => w,
        Err(e) => {
            return Err(e);
        },
    };
    let eqd_w = eqd_weight(&weights, assets);
    let debt = match debt {
        Some(d) => d,
        None => {
            return Err(InterestRateError::ExternalError);
        },
    };
    let debt_fx = match fixedi128_from_balance(debt) {
        Some(d) => d,
        None => {
            return Err(InterestRateError::Overflow);
        },
    };
    let elapsed = fixed_i128_from_u64(now - last_update);
    let year = fixed_i128_from_u64(SECONDS_IN_YEAR);
    let price = match basic_asset_price {
        Some(p) => fixedi128_from_fixedi64(p),
        None => {
            return Err(InterestRateError::NoPrices);
        },
    };
    let q = fx_div(elapsed, year);
    let m = fx_mul(debt_fx, q);
    let coeff = fx_div(m, price);
    let prime = match prime_rate {
        Ok(p) => p,
        Err(e) => {
            return Err(e);
        },
    };
    let lender_part = fixed_i128_from_permill(settings.lender_part);
    let treasury_fee = fx_mul(coeff, fixed_i128_from_permill(settings.treasury_fee));
    let base = fx_mul(coeff, fixed_i128_from_permill(settings.base_bailsman_fee));
    let ins1 = fx_mul(coeff, FX_ONE - lender_part);
    let insurance = fx_mul(ins1, prime);
    let e1 = fx_mul(coeff, eqd_w);
    let e2 = fx_mul(e1, lender_part);
    let eqd = fx_mul(e2, prime);
    let bailsman_fee = base + insurance + eqd;
    assert(coeff_spec(debt as int * 1_000_000_000, now - last_update, price as int) == Some(
        coeff as int,
    ));
    assert(bailsman_fee_spec(coeff as int, eqd_w as int, prime as int, settings) == Some(
        bailsman_fee as int,
    ));
    let base_lend_rate = fixed_i128_from_permill(settings.base_lender_fee);
    let n = if weights.len() < assets.len() {
        weights.len()
    } else {
        assets.len()
    };
    let ghost gw = weights@;
    let ghost ga = assets@;
    let mut lender: Vec<(u64, u128)> = Vec::new();
    let mut k: usize = 0;
    #[verifier::loop_isolation(false)]
    while k < n
        invariant
            gw == weights@,
            ga == assets@,
            n == (if gw.len() < ga.len() {
                gw.len() as int
            } else {
                ga.len() as int
            }),
            0 <= k <= n,
            lender_fees_prefix(gw, ga, coeff as int, prime as int, settings, n as int) is Some,
            lender_fees_prefix(gw, ga, coeff as int, prime as int, settings, k as int) == Some(
                Ok::<Seq<(u64, u128)>, InterestRateError>(lender@),
            ),
            lender_part == permill_fx(settings.lender_part),
            base_lend_rate == permill_fx(settings.base_lender_fee),
        decreases n - k,
    {
        proof {
            lemma_lender_fees_mono(gw, ga, coeff as int, prime as int, settings, k + 1, n as int);
        }
        if assets[k].physical {
            let cw = fx_mul(coeff, weights[k]);
            let lpp = fx_mul(lender_part, prime);
            let rate = base_lend_rate + lpp;
            let fee = fx_mul(cw, rate);
            match balance_from_fixedi128(fee) {
                Some(v) => {
                    lender.push((assets[k].id, v));
                },
                None => {
                    proof {
                        assert(lender_fee_spec(coeff as int, gw[k as int] as int, prime as int, settings)
                            == Some(None::<int>));
                        assert(lender_fees_prefix(
                            gw,
                            ga,
                            coeff as int,
                            prime as int,
                            settings,
                            k + 1,
                        ) == Some(Err::<Seq<(u64, u128)>, InterestRateError>(
                            InterestRateError::ValueError,
                        )));
                        lemma_lender_fees_mono(
                            gw,
                            ga,
                            coeff as int,
                            prime as int,
                            settings,
                            k + 1,
                            n as int,
                        );
                    }
                    return Err(InterestRateError::ValueError);
                },
            }
        }
        k = k + 1;
    }
    let treasury = match balance_from_fixedi128(treasury_fee) {
        Some(t) => t,
        None => {
            return Err(InterestRateError::Overflow);
        },
    };
    let bailsman = match balance_from_fixedi128(bailsman_fee) {
        Some(b) => b,
        None => {
            return Err(InterestRateError::Overflow);
        },
    };
    Ok(Fee { basic_asset, treasury, bailsman, lender })
}

// ---------------------------------------------------------------------------
// Laws
// ---------------------------------------------------------------------------

proof fn lemma_zero_coeff_lender_fees(
    weights: Seq<i128>,
    assets: Seq<FeeAsset>,
    prime: int,
    s: FeeSettings,
    n: int,
)
    requires
        lender_fees_prefix(weights, assets, 0, prime, s, n) is Some,
    ensures
        lender_fees_prefix(weights, assets, 0, prime, s, n) matches Some(Ok(l)) && forall|k: int|
            0 <= k < l.len() ==> (#[trigger] l[k]).1 == 0,
    decreases n,
{
    if n > 0 {
        lemma_lender_fees_mono(weights, assets, 0, prime, s, n - 1, n);
        lemma_zero_coeff_lender_fees(weights, assets, prime, s, n - 1);
        let w = weights[n - 1] as int;
        assert(fmul(0, w) == 0);
        let lp = permill_fx(s.lender_part);
        let rate = permill_fx(s.base_lender_fee) + fmul(lp, prime);
        assert(fmul(0, rate) == 0);
        assert(balance_from_fixed_spec(0) == Some(0int));
    }
}

/// No time elapsed, no fee: charging an account right after its last update
/// gives zero to the treasury, the bailsmen and every lender.
pub proof fn law_no_elapsed_time_no_fee(i: FeeInputs)
    requires
        calc_fee_spec(i) is Some,
        i.now == i.last_update,
    ensures
        calc_fee_spec(i) matches Some(Ok((t, b, l))) ==> t == 0 && b == 0 && forall|k: int|
            0 <= k < l.len() ==> (#[trigger] l[k]).1 == 0,
{
    if let (Ok(weights), Some(debt), Some(price), Ok(prime)) = (i.weights, i.debt, i.price, i.prime) {
        if debt * 1_000_000_000 <= i128::MAX {
            assert(fdiv(0, year_fx()) == 0);
            assert(fmul(debt * 1_000_000_000, 0) == 0);
            if price * 1_000_000_000 != 0 {
                assert(fdiv(0, price * 1_000_000_000) == 0);
                assert(coeff_spec(debt * 1_000_000_000, 0, price * 1_000_000_000) == Some(0int));
                let n = if weights.len() < i.assets.len() {
                    weights.len() as int
                } else {
                    i.assets.len() as int
                };
                let s = i.settings;
                assert(fmul(0, permill_fx(s.treasury_fee)) == 0);
                assert(fmul(0, permill_fx(s.base_bailsman_fee)) == 0);
                assert(fmul(0, fx_one() - permill_fx(s.lender_part)) == 0);
                assert(fmul(0, prime as int) == 0);
                assert(fmul(0, eqd_weight_from(weights, i.assets, 0)) == 0);
                assert(fmul(0, permill_fx(s.lender_part)) == 0);
                assert(balance_from_fixed_spec(0) == Some(0int));
                if lender_fees_prefix(weights, i.assets, 0, prime as int, s, n) is Some {
                    lemma_zero_coeff_lender_fees(weights, i.assets, prime as int, s, n);
                }
            }
        }
    }
}

/// An account's balance of an asset as the rate model reads it: held, or owed.
pub fn total_balance_of(b: crate::balance::SignedBalance) -> (r: crate::rate::TotalBalance)
    ensures
        match b {
            crate::balance::SignedBalance::Positive(v) => r.collateral == v && r.debt == 0,
            crate::balance::SignedBalance::Negative(v) => r.collateral == 0 && r.debt == v,
        },
{
    match b {
        crate::balance::SignedBalance::Positive(v) => crate::rate::Cd::new(v, 0),
        crate::balance::SignedBalance::Negative(v) => crate::rate::Cd::new(0, v),
    }
}

} // verus!
