//! Treasury buyouts: exchanging an asset for the basic asset at the oracle
//! price plus the sell fee, the daily buyout limit, and the buyout of the
//! basic asset that an account owes, paid with its other assets in the
//! order of their buyout priority.
use crate::balance::SignedBalance;
use crate::fixed::{eq_mul, eq_mul_spec, mul_div_floor, permill_parts, EQ_ONE};
use vstd::prelude::*;

verus! {

/// Length of a buyout limit period: one day, in seconds.
pub const BUYOUT_LIMIT_PERIOD_IN_SEC: u64 = 86400;

/// What a buyout request fixes: the basic asset to receive, or the asset to give.
#[derive(PartialEq, Eq, Structural, Debug, Clone, Copy)]
pub enum Amount {
    Buyout(u128),
    Exchange(u128),
}

/// Errors of the treasury.
#[derive(PartialEq, Eq, Structural, Debug, Clone, Copy)]
pub enum TreasuryError {
    /// The basic asset cannot be bought out with itself.
    WrongAssetToBuyout,
    /// The account's buyouts in this period would exceed the limit.
    BuyoutLimitExceeded,
    /// An asset has no price.
    NoPrice,
    /// The treasury does not hold enough of the basic asset.
    InsufficientTreasuryBalance,
    /// The account does not hold enough of the asset.
    InsufficientAccountBalance,
    /// An amount does not fit in a balance.
    Overflow,
    /// The price source gave an error.
    PriceSource,
}

/// Why a buyout transaction is refused before dispatch.
#[derive(PartialEq, Eq, Structural, Debug, Clone, Copy)]
pub enum ValidityError {
    NotEnoughToBuyout,
    Math,
    BuyoutLimitExceeded,
    LessThanMinBuyoutAmount,
}

impl ValidityError {
    /// The code of the custom transaction validity error.
    pub fn code(&self) -> (r: u8)
        ensures
            r == (match *self {
                ValidityError::NotEnoughToBuyout => 0u8,
                ValidityError::Math => 1u8,
                ValidityError::BuyoutLimitExceeded => 2u8,
                ValidityError::LessThanMinBuyoutAmount => 3u8,
            }),
    {
        match self {
            ValidityError::NotEnoughToBuyout => 0,
            ValidityError::Math => 1,
            ValidityError::BuyoutLimitExceeded => 2,
            ValidityError::LessThanMinBuyoutAmount => 3,
        }
    }
}

/// The sell fee (parts per million) as an `EqFixedU128` factor `1 + fee`.
pub open spec fn fee_factor(sell_fee: u32) -> int {
    EQ_ONE + permill_parts(sell_fee as int) * 1000
}

/// Price of the basic asset with the sell fee: `price * (1 + fee)`.
pub open spec fn price_with_fee_spec(price: u128, sell_fee: u32) -> int {
    eq_mul_spec(price as int, fee_factor(sell_fee))
}

/// `price * (1 + fee)` fits in an `EqFixedU128`.
pub open spec fn price_with_fee_fits(price: u128, sell_fee: u32) -> bool {
    price_with_fee_spec(price, sell_fee) <= u128::MAX
}

/// Price of the basic asset with the sell fee; the multiplication panics
/// where it overflows, which the precondition excludes.
pub fn price_with_fee(price: u128, sell_fee: u32) -> (r: u128)
    requires
        price_with_fee_fits(price, sell_fee),
    ensures
        r == price_with_fee_spec(price, sell_fee),
{
    let parts: u128 = if sell_fee <= 1_000_000 {
        sell_fee as u128
    } else {
        1_000_000
    };
    eq_mul(price, EQ_ONE + parts * 1000)
}

/// `floor(a * b / c)`, `None` for `c == 0` or where it exceeds `u128`.
pub open spec fn mul_div_spec(a: int, b: int, c: int) -> Option<u128> {
    if c != 0 && a * b / c <= u128::MAX {
        Some((a * b / c) as u128)
    } else {
        None
    }
}

/// Amount of `asset` to give for `buyout_amount` of the basic asset.
pub open spec fn exchange_for_spec(
    asset: u64,
    basic_asset: u64,
    buyout_amount: u128,
    basic_price: Option<u128>,
    asset_price: Option<u128>,
    sell_fee: u32,
) -> Result<u128, TreasuryError> {
    if asset == basic_asset {
        Err(TreasuryError::WrongAssetToBuyout)
    } else {
        match (basic_price, asset_price) {
            (Some(b), Some(p)) => match mul_div_spec(
                buyout_amount as int,
                price_with_fee_spec(b, sell_fee),
                p as int,
            ) {
                Some(v) => Ok(v),
                None => Err(TreasuryError::Overflow),
            },
            _ => Err(TreasuryError::PriceSource),
        }
    }
}

/// Amount of the basic asset bought out with `exchange_amount` of `asset`.
pub open spec fn buyout_for_spec(
    asset: u64,
    basic_asset: u64,
    exchange_amount: u128,
    basic_price: Option<u128>,
    asset_price: Option<u128>,
    sell_fee: u32,
) -> Result<u128, TreasuryError> {
    if asset == basic_asset {
        Err(TreasuryError::WrongAssetToBuyout)
    } else {
        match (basic_price, asset_price) {
            (Some(b), Some(p)) => match mul_div_spec(
                exchange_amount as int,
                p as int,
                price_with_fee_spec(b, sell_fee),
            ) {
                Some(v) => Ok(v),
                None => Err(TreasuryError::Overflow),
            },
            _ => Err(TreasuryError::PriceSource),
        }
    }
}

/// The basic price, where there is one, can carry the sell fee.
pub open spec fn basic_price_ok(basic_price: Option<u128>, sell_fee: u32) -> bool {
    basic_price matches Some(b) ==> price_with_fee_fits(b, sell_fee)
}

/// Amount of `asset` that buys out `buyout_amount` of the basic asset:
/// `buyout_amount * basic_price * (1 + sell_fee) / asset_price`, rounded
/// down. `None` for a price stands for the price source's error.
pub fn calc_amount_to_exchange(
    asset: u64,
    basic_asset: u64,
    buyout_amount: u128,
    basic_price: Option<u128>,
    asset_price: Option<u128>,
    sell_fee: u32,
) -> (r: Result<u128, TreasuryError>)
    requires
        basic_price_ok(basic_price, sell_fee),
    ensures
        r == exchange_for_spec(asset, basic_asset, buyout_amount, basic_price, asset_price, sell_fee),
{
    if asset == basic_asset {
        return Err(TreasuryError::WrongAssetToBuyout);
    }
    let b = match basic_price {
        Some(b) => price_with_fee(b, sell_fee),
        None => {
            return Err(TreasuryError::PriceSource);
        },
    };
    let p = match asset_price {
        Some(p) => p,
        None => {
            return Err(TreasuryError::PriceSource);
        },
    };
    match mul_div_floor(buyout_amount, b, p) {
        Some(v) => Ok(v),
        None => Err(TreasuryError::Overflow),
    }
}

/// Amount of the basic asset that `exchange_amount` of `asset` buys out:
/// `exchange_amount * asset_price / (basic_price * (1 + sell_fee))`,
/// rounded down.
pub fn calc_buyout_amount(
    asset: u64,
    basic_asset: u64,
    exchange_amount: u128,
    basic_price: Option<u128>,
    asset_price: Option<u128>,
    sell_fee: u32,
) -> (r: Result<u128, TreasuryError>)
    requires
        basic_price_ok(basic_price, sell_fee),
    ensures
        r == buyout_for_spec(asset, basic_asset, exchange_amount, basic_price, asset_price, sell_fee),
{
    if asset == basic_asset {
        return Err(TreasuryError::WrongAssetToBuyout);
    }
    let b = match basic_price {
        Some(b) => price_with_fee(b, sell_fee),
        None => {
            return Err(TreasuryError::PriceSource);
        },
    };
    let p = match asset_price {
        Some(p) => p,
        None => {
            return Err(TreasuryError::PriceSource);
        },
    };
    match mul_div_floor(exchange_amount, p, b) {
        Some(v) => Ok(v),
        None => Err(TreasuryError::Overflow),
    }
}

/// The buyout amount and the exchange amount of a request.
pub open spec fn split_spec(
    asset: u64,
    basic_asset: u64,
    amount: Amount,
    basic_price: Option<u128>,
    asset_price: Option<u128>,
    sell_fee: u32,
) -> Result<(u128, u128), TreasuryError> {
    match amount {
        Amount::Buyout(b) => match exchange_for_spec(
            asset,
            basic_asset,
            b,
            basic_price,
            asset_price,
            sell_fee,
        ) {
            Ok(e) => Ok((b, e)),
            Err(err) => Err(err),
        },
        Amount::Exchange(e) => match buyout_for_spec(
            asset,
            basic_asset,
            e,
            basic_price,
            asset_price,
            sell_fee,
        ) {
            Ok(b) => Ok((b, e)),
            Err(err) => Err(err),
        },
    }
}

/// Completes a request to the pair (buyout amount, exchange amount).
pub fn split_to_buyout_and_exchange(
    asset: u64,
    basic_asset: u64,
    amount: Amount,
    basic_price: Option<u128>,
    asset_price: Option<u128>,
    sell_fee: u32,
) -> (r: Result<(u128, u128), TreasuryError>)
    requires
        basic_price_ok(basic_price, sell_fee),
    ensures
        r == split_spec(asset, basic_asset, amount, basic_price, asset_price, sell_fee),
{
    match amount {
        Amount::Buyout(b) => {
            match calc_amount_to_exchange(asset, basic_asset, b, basic_price, asset_price, sell_fee) {
                Ok(e) => Ok((b, e)),
                Err(err) => Err(err),
            }
        },
        Amount::Exchange(e) => {
            match calc_buyout_amount(asset, basic_asset, e, basic_price, asset_price, sell_fee) {
                Ok(b) => Ok((b, e)),
                Err(err) => Err(err),
            }
        },
    }
}

/// Start of the buyout limit period that contains `now`.
pub open spec fn period_start(now: u64) -> int {
    (now as int / BUYOUT_LIMIT_PERIOD_IN_SEC as int) * BUYOUT_LIMIT_PERIOD_IN_SEC as int
}

/// The account's buyout record `(amount bought out, time of the last
/// buyout)` as it stands for a check at `now`: reset to `(0, now)` when it
/// holds buyouts of an earlier period.
pub open spec fn current_record(record: (u128, u64), now: u64) -> (u128, u64) {
    if record.0 != 0 && (record.1 as int) < period_start(now) {
        (0, now)
    } else {
        record
    }
}

/// Checks a buyout of `buyout_amount` against the limit, where one is set.
/// Returns the account's record as it is to be stored: reset when it held
/// buyouts of an earlier period. The sum of the record and the amount is
/// computed unchecked, so it must fit.
pub fn ensure_buyout_limit_not_exceeded(
    limit: Option<u128>,
    now: u64,
    record: (u128, u64),
    buyout_amount: u128,
) -> (r: Result<(u128, u64), TreasuryError>)
    requires
        limit is Some ==> current_record(record, now).0 + buyout_amount <= u128::MAX,
    ensures
        match limit {
            None => r == Ok::<(u128, u64), TreasuryError>(record),
            Some(l) => if current_record(record, now).0 + buyout_amount <= l {
                r == Ok::<(u128, u64), TreasuryError>(current_record(record, now))
            } else {
                r == Err::<(u128, u64), TreasuryError>(TreasuryError::BuyoutLimitExceeded)
            },
        },
{
    match limit {
        None => Ok(record),
        Some(l) => {
            let current_period = (now / BUYOUT_LIMIT_PERIOD_IN_SEC) * BUYOUT_LIMIT_PERIOD_IN_SEC;
            let mut rec = record;
            if rec.0 != 0 && rec.1 < current_period {
                rec = (0, now);
            }
            if rec.0 + buyout_amount <= l {
                Ok(rec)
            } else {
                Err(TreasuryError::BuyoutLimitExceeded)
            }
        },
    }
}

/// Records a buyout where a limit is set: the amount is added and the time
/// set to `now`. The sum is computed unchecked, so it must fit.
pub fn update_buyouts(limit_set: bool, record: (u128, u64), buyout_amount: u128, now: u64) -> (r: (
    u128,
    u64,
))
    requires
        limit_set ==> record.0 + buyout_amount <= u128::MAX,
    ensures
        limit_set ==> r == ((record.0 + buyout_amount) as u128, now),
        !limit_set ==> r == record,
{
    if limit_set {
        (record.0 + buyout_amount, now)
    } else {
        record
    }
}

/// What a buyout does, once checked: the account gives `exchange_amount` of
/// the asset and receives `buyout_amount` of the basic asset; `record` is
/// its buyout record after the buyout.
#[derive(Debug, Clone, Copy)]
pub struct BuyoutPlan {
    pub buyout_amount: u128,
    pub exchange_amount: u128,
    pub record: (u128, u64),
}

/// Outcome of the checks of a buyout.
pub open spec fn buyout_plan_spec(
    asset: u64,
    basic_asset: u64,
    amount: Amount,
    basic_price: Option<u128>,
    asset_price: Option<u128>,
    sell_fee: u32,
    limit: Option<u128>,
    now: u64,
    record: (u128, u64),
) -> Result<BuyoutPlan, TreasuryError> {
    match split_spec(asset, basic_asset, amount, basic_price, asset_price, sell_fee) {
        Err(e) => Err(e),
        Ok((b, e)) => match limit {
            None => Ok(BuyoutPlan { buyout_amount: b, exchange_amount: e, record }),
            Some(l) => if current_record(record, now).0 + b <= l {
                Ok(
                    BuyoutPlan {
                        buyout_amount: b,
                        exchange_amount: e,
                        record: ((current_record(record, now).0 + b) as u128, now),
                    },
                )
            } else {
                Err(TreasuryError::BuyoutLimitExceeded)
            },
        },
    }
}

/// Checks a buyout request of `who` and computes what it exchanges and the
/// buyout record that follows it. The exchange itself is made by the caller.
pub fn do_buyout(
    asset: u64,
    basic_asset: u64,
    amount: Amount,
    basic_price: Option<u128>,
    asset_price: Option<u128>,
    sell_fee: u32,
    limit: Option<u128>,
    now: u64,
    record: (u128, u64),
) -> (r: Result<BuyoutPlan, TreasuryError>)
    requires
        basic_price_ok(basic_price, sell_fee),
        limit is Some ==> (split_spec(asset, basic_asset, amount, basic_price, asset_price, sell_fee)
            matches Ok((b, _)) ==> current_record(record, now).0 + b <= u128::MAX),
    ensures
        r == buyout_plan_spec(
            asset,
            basic_asset,
            amount,
            basic_price,
            asset_price,
            sell_fee,
            limit,
            now,
            record,
        ),
{
    let (b, e) = match split_to_buyout_and_exchange(
        asset,
        basic_asset,
        amount,
        basic_price,
        asset_price,
        sell_fee,
    ) {
        Ok(p) => p,
        Err(err) => {
            return Err(err);
        },
    };
    let rec = match ensure_buyout_limit_not_exceeded(limit, now, record, b) {
        Ok(rec) => rec,
        Err(err) => {
            return Err(err);
        },
    };
    let rec = update_buyouts(limit.is_some(), rec, b, now);
    Ok(BuyoutPlan { buyout_amount: b, exchange_amount: e, record: rec })
}

/// The error of a failed exchange: a shortfall of the treasury or of the
/// account is named as such; `None` keeps the exchange's own error.
pub fn exchange_error(failed_account: Option<u64>, treasury: u64, who: u64) -> (r: Option<
    TreasuryError,
>)
    ensures
        r == (match failed_account {
            Some(acc) => if acc == treasury {
                Some(TreasuryError::InsufficientTreasuryBalance)
            } else if acc == who {
                Some(TreasuryError::InsufficientAccountBalance)
            } else {
                None
            },
            None => None,
        }),
{
    match failed_account {
        Some(acc) => {
            if acc == treasury {
                Some(TreasuryError::InsufficientTreasuryBalance)
            } else if acc == who {
                Some(TreasuryError::InsufficientAccountBalance)
            } else {
                None
            }
        },
        None => None,
    }
}

// ---------------------------------------------------------------------------
// Buyout of a debt in the basic asset
// ---------------------------------------------------------------------------

/// An asset of an account as the buyout of its debt reads it: its balance,
/// its buyout priority (lower goes first) and its price (`None` where the
/// oracle has none).
#[derive(PartialEq, Eq, Structural, Debug, Clone, Copy)]
pub struct BuyoutAsset {
    pub asset: u64,
    pub balance: SignedBalance,
    pub priority: u64,
    pub price: Option<u128>,
}

/// Inserts `x` into `s` after the last element whose priority is not above
/// that of `x`.
pub open spec fn insert_by_priority(s: Seq<BuyoutAsset>, x: BuyoutAsset) -> Seq<BuyoutAsset>
    decreases s.len(),
{
    if s.len() == 0 {
        seq![x]
    } else if s.last().priority <= x.priority {
        s.push(x)
    } else {
        insert_by_priority(s.drop_last(), x).push(s.last())
    }
}

/// The assets in the order of their priority; assets of equal priority keep
/// their order (a stable sort).
pub open spec fn sort_by_priority(s: Seq<BuyoutAsset>) -> Seq<BuyoutAsset>
    decreases s.len(),
{
    if s.len() == 0 {
        s
    } else {
        insert_by_priority(sort_by_priority(s.drop_last()), s.last())
    }
}

proof fn lemma_insert_step(s: Seq<BuyoutAsset>, x: BuyoutAsset, j: int)
    requires
        0 < j <= s.len(),
        s[j - 1].priority > x.priority,
    ensures
        insert_by_priority(s.take(j), x) + s.skip(j) == insert_by_priority(s.take(j - 1), x)
            + s.skip(j - 1),
{
    assert(s.take(j).drop_last() =~= s.take(j - 1));
    assert(s.take(j).last() == s[j - 1]);
    let a = insert_by_priority(s.take(j - 1), x);
    assert(a.push(s[j - 1]) + s.skip(j) =~= a + s.skip(j - 1));
}

fn insert_sorted(out: &mut Vec<BuyoutAsset>, x: BuyoutAsset)
    ensures
        final(out)@ == insert_by_priority(old(out)@, x),
{
    let ghost s = out@;
    let mut j: usize = out.len();
    proof {
        assert(s.take(s.len() as int) =~= s);
        assert(s.skip(s.len() as int) =~= Seq::<BuyoutAsset>::empty());
        assert(insert_by_priority(s, x) + Seq::<BuyoutAsset>::empty() =~= insert_by_priority(s, x));
    }
    while j > 0 && out[j - 1].priority > x.priority
        invariant
            out@ == s,
            j <= s.len(),
            insert_by_priority(s, x) == insert_by_priority(s.take(j as int), x) + s.skip(
                j as int,
            ),
        decreases j,
    {
        proof {
            lemma_insert_step(s, x, j as int);
        }
        j = j - 1;
    }
    proof {
        if j > 0 {
            assert(s.take(j as int).last() == s[j - 1]);
        }
        assert(insert_by_priority(s.take(j as int), x) =~= s.take(j as int).push(x));
        assert(s.take(j as int).push(x) + s.skip(j as int) =~= s.insert(j as int, x));
    }
    out.insert(j, x);
}

/// Sorts the assets by priority, stably.
pub fn sort_assets_by_priority(v: &Vec<BuyoutAsset>) -> (r: Vec<BuyoutAsset>)
    ensures
        r@ == sort_by_priority(v@),
{
    let mut out: Vec<BuyoutAsset> = Vec::new();
    let mut i: usize = 0;
    while i < v.len()
        invariant
            i <= v@.len(),
            out@ == sort_by_priority(v@.take(i as int)),
        decreases v@.len() - i,
    {
        proof {
            assert(v@.take(i + 1).drop_last() =~= v@.take(i as int));
            assert(v@.take(i + 1).last() == v@[i as int]);
        }
        insert_sorted(&mut out, v[i]);
        i = i + 1;
    }
    proof {
        assert(v@.take(i as int) =~= v@);
    }
    out
}

/// Price of an asset entry, zero where it has none.
pub open spec fn price_of(e: BuyoutAsset) -> int {
    match e.price {
        Some(p) => p as int,
        None => 0,
    }
}

/// The transfers that pay `left` of the basic asset with the assets from
/// index `i` on: each held asset other than the basic one, valued at its
/// price over the price of the basic asset with the fee (`bpwf`), is given
/// whole while it is worth less than what is left; the first one that
/// covers the rest gives only the amount worth the rest.
pub open spec fn buyout_steps(s: Seq<BuyoutAsset>, i: int, basic: u64, bpwf: int, left: int) -> Result<
    Seq<(u64, u128)>,
    TreasuryError,
>
    decreases s.len() - i,
{
    if i < 0 || i >= s.len() {
        Ok(seq![])
    } else {
        let e = s[i];
        if e.asset == basic {
            buyout_steps(s, i + 1, basic, bpwf, left)
        } else {
            match e.balance {
                SignedBalance::Negative(_) => buyout_steps(s, i + 1, basic, bpwf, left),
                SignedBalance::Positive(b) => match mul_div_spec(b as int, price_of(e), bpwf) {
                    None => Err(TreasuryError::Overflow),
                    Some(in_basic) => if in_basic < left {
                        match buyout_steps(s, i + 1, basic, bpwf, left - in_basic) {
                            Ok(t) => Ok(seq![(e.asset, b)] + t),
                            Err(err) => Err(err),
                        }
                    } else {
                        match mul_div_spec(left, bpwf, price_of(e)) {
                            None => Err(TreasuryError::Overflow),
                            Some(c) => Ok(seq![(e.asset, c)]),
                        }
                    },
                },
            }
        }
    }
}

/// Outcome of the buyout of `amount` of the basic asset for an account
/// with the given assets: the transfers from the account to the treasury,
/// or the error. The treasury then gives `amount` of the basic asset.
pub open spec fn eq_buyout_spec(
    assets: Seq<BuyoutAsset>,
    basic: u64,
    basic_price: Option<u128>,
    treasury_balance: SignedBalance,
    amount: u128,
    sell_fee: u32,
) -> Result<Seq<(u64, u128)>, TreasuryError> {
    if exists|k: int| 0 <= k < assets.len() && assets[k].price is None {
        Err(TreasuryError::NoPrice)
    } else {
        match basic_price {
            None => Err(TreasuryError::NoPrice),
            Some(bp) => if treasury_balance.value() < amount {
                Err(TreasuryError::InsufficientTreasuryBalance)
            } else {
                buyout_steps(
                    sort_by_priority(assets),
                    0,
                    basic,
                    price_with_fee_spec(bp, sell_fee),
                    amount as int,
                )
            },
        }
    }
}

/// What a buyout moves: the assets from the account to the treasury, then
/// `to_account` (the basic asset and the amount bought) from the treasury
/// to the account.
#[derive(Debug)]
pub struct EqBuyoutPlan {
    pub from_account: Vec<(u64, u128)>,
    pub to_account: (u64, u128),
}

/// Buys out `amount` of the basic asset that an account owes with its other
/// assets, cheapest priority first: the transfers of assets from the
/// account to the treasury, and the treasury's transfer of `amount` of the
/// basic asset to the account.
pub fn eq_buyout(
    assets: &Vec<BuyoutAsset>,
    basic: u64,
    basic_price: Option<u128>,
    treasury_balance: SignedBalance,
    amount: u128,
    sell_fee: u32,
) -> (r: Result<EqBuyoutPlan, TreasuryError>)
    requires
        basic_price_ok(basic_price, sell_fee),
    ensures
        match eq_buyout_spec(assets@, basic, basic_price, treasury_balance, amount, sell_fee) {
            Ok(t) => r is Ok && r->Ok_0.from_account@ == t && r->Ok_0.to_account == (basic, amount),
            Err(e) => r matches Err(e2) && e2 == e,
        },
{
    match buyout_transfers(assets, basic, basic_price, treasury_balance, amount, sell_fee) {
        Ok(from_account) => Ok(EqBuyoutPlan { from_account, to_account: (basic, amount) }),
        Err(e) => Err(e),
    }
}

/// The transfers from the account in a buyout of `amount` of the basic
/// asset.
fn buyout_transfers(
    assets: &Vec<BuyoutAsset>,
    basic: u64,
    basic_price: Option<u128>,
    treasury_balance: SignedBalance,
    amount: u128,
    sell_fee: u32,
) -> (r: Result<Vec<(u64, u128)>, TreasuryError>)
    requires
        basic_price_ok(basic_price, sell_fee),
    ensures
        match eq_buyout_spec(assets@, basic, basic_price, treasury_balance, amount, sell_fee) {
            Ok(t) => r is Ok && r->Ok_0@ == t,
            Err(e) => r == Err::<Vec<(u64, u128)>, TreasuryError>(e),
        },
{
    let mut k: usize = 0;
    while k < assets.len()
        invariant
            k <= assets@.len(),
            forall|m: int| 0 <= m < k ==> assets@[m].price is Some,
        decreases assets@.len() - k,
    {
        if assets[k].price.is_none() {
            return Err(TreasuryError::NoPrice);
        }
        k = k + 1;
    }
    let bp = match basic_price {
        Some(bp) => bp,
        None => {
            return Err(TreasuryError::NoPrice);
        },
    };
    if !treasury_balance.ge(&SignedBalance::Positive(amount)) {
        return Err(TreasuryError::InsufficientTreasuryBalance);
    }
    let sorted = sort_assets_by_priority(assets);
    let bpwf = price_with_fee(bp, sell_fee);
    let ghost s = sorted@;
    assert(eq_buyout_spec(assets@, basic, basic_price, treasury_balance, amount, sell_fee)
        == buyout_steps(s, 0, basic, bpwf as int, amount as int));
    let mut transfers: Vec<(u64, u128)> = Vec::new();
    proof {
        assert(buyout_steps(s, 0, basic, bpwf as int, amount as int) matches Ok(t) ==> transfers@ + t =~= t);
    }
    let mut left: u128 = amount;
    let mut i: usize = 0;
    while i < sorted.len()
        invariant
            s == sorted@,
            i <= s.len(),
            eq_buyout_spec(assets@, basic, basic_price, treasury_balance, amount, sell_fee)
                == buyout_steps(s, 0, basic, bpwf as int, amount as int),
            buyout_steps(s, 0, basic, bpwf as int, amount as int) == (match buyout_steps(
                s,
                i as int,
                basic,
                bpwf as int,
                left as int,
            ) {
                Ok(t) => Ok(transfers@ + t),
                Err(e) => Err(e),
            }),
        decreases s.len() - i,
    {
        let e = sorted[i];
        if e.asset != basic {
            match e.balance {
                SignedBalance::Positive(b) => {
                    let p: u128 = match e.price {
                        Some(p) => p,
                        None => 0,
                    };
                    let in_basic = match mul_div_floor(b, p, bpwf) {
                        Some(v) => v,
                        None => {
                            return Err(TreasuryError::Overflow);
                        },
                    };
                    if in_basic < left {
                        proof {
                            assert(transfers@.push((e.asset, b)) + buyout_steps(
                                s,
                                i + 1,
                                basic,
                                bpwf as int,
                                left - in_basic,
                            )->Ok_0 =~= transfers@ + (seq![(e.asset, b)] + buyout_steps(
                                s,
                                i + 1,
                                basic,
                                bpwf as int,
                                left - in_basic,
                            )->Ok_0));
                        }
                        transfers.push((e.asset, b));
                        left = left - in_basic;
                    } else {
                        let c = match mul_div_floor(left, bpwf, p) {
                            Some(c) => c,
                            None => {
                                return Err(TreasuryError::Overflow);
                            },
                        };
                        proof {
                            assert(transfers@.push((e.asset, c)) =~= transfers@ + seq![(e.asset, c)]);
                        }
                        transfers.push((e.asset, c));
                        return Ok(transfers);
                    }
                },
                SignedBalance::Negative(_) => {},
            }
        }
        i = i + 1;
    }
    proof {
        assert(transfers@ + seq![] =~= transfers@);
    }
    Ok(transfers)
}

/// Whether `amount` of `asset` is worth at least `amount_buyout` of the
/// basic asset at the prices with the sell fee.
pub open spec fn is_enough_spec(
    amount: u128,
    amount_buyout: u128,
    basic_price: Option<u128>,
    asset_price: Option<u128>,
    sell_fee: u32,
) -> Result<bool, TreasuryError> {
    match (basic_price, asset_price) {
        (Some(b), Some(p)) => match mul_div_spec(
            amount as int,
            p as int,
            price_with_fee_spec(b, sell_fee),
        ) {
            Some(v) => Ok(v >= amount_buyout),
            None => Err(TreasuryError::Overflow),
        },
        _ => Err(TreasuryError::NoPrice),
    }
}

/// Whether `amount` of an asset covers a buyout of `amount_buyout` of the
/// basic asset.
pub fn is_enough(
    amount: u128,
    amount_buyout: u128,
    basic_price: Option<u128>,
    asset_price: Option<u128>,
    sell_fee: u32,
) -> (r: Result<bool, TreasuryError>)
    requires
        basic_price_ok(basic_price, sell_fee),
    ensures
        r == is_enough_spec(amount, amount_buyout, basic_price, asset_price, sell_fee),
{
    let b = match basic_price {
        Some(b) => price_with_fee(b, sell_fee),
        None => {
            return Err(TreasuryError::NoPrice);
        },
    };
    let p = match asset_price {
        Some(p) => p,
        None => {
            return Err(TreasuryError::NoPrice);
        },
    };
    match mul_div_floor(amount, p, b) {
        Some(v) => Ok(v >= amount_buyout),
        None => Err(TreasuryError::Overflow),
    }
}

/// Outcome of the check of a buyout transaction before dispatch.
pub open spec fn check_buyout_spec(
    asset: u64,
    basic_asset: u64,
    amount: Amount,
    basic_price: Option<u128>,
    asset_price: Option<u128>,
    sell_fee: u32,
    min_amount_to_buyout: u128,
    balance: SignedBalance,
    limit: Option<u128>,
    now: u64,
    record: (u128, u64),
) -> Result<(), ValidityError> {
    match split_spec(asset, basic_asset, amount, basic_price, asset_price, sell_fee) {
        Err(_) => Err(ValidityError::Math),
        Ok((b, e)) => if b < min_amount_to_buyout {
            Err(ValidityError::LessThanMinBuyoutAmount)
        } else if !(balance matches SignedBalance::Positive(v) && v >= e) {
            Err(ValidityError::NotEnoughToBuyout)
        } else {
            match limit {
                Some(l) => if current_record(record, now).0 + b <= l {
                    Ok(())
                } else {
                    Err(ValidityError::BuyoutLimitExceeded)
                },
                None => Ok(()),
            }
        },
    }
}

/// Checks a buyout transaction before dispatch: the amounts can be computed,
/// the buyout is not below the minimum, the account holds the asset to give
/// and the limit is not exceeded.
pub fn check_buyout(
    asset: u64,
    basic_asset: u64,
    amount: Amount,
    basic_price: Option<u128>,
    asset_price: Option<u128>,
    sell_fee: u32,
    min_amount_to_buyout: u128,
    balance: SignedBalance,
    limit: Option<u128>,
    now: u64,
    record: (u128, u64),
) -> (r: Result<(), ValidityError>)
    requires
        basic_price_ok(basic_price, sell_fee),
        limit is Some ==> (split_spec(asset, basic_asset, amount, basic_price, asset_price, sell_fee)
            matches Ok((b, e)) ==> (b >= min_amount_to_buyout && (balance matches SignedBalance::Positive(
            v) && v >= e) ==> current_record(record, now).0 + b <= u128::MAX)),
    ensures
        r == check_buyout_spec(
            asset,
            basic_asset,
            amount,
            basic_price,
            asset_price,
            sell_fee,
            min_amount_to_buyout,
            balance,
            limit,
            now,
            record,
        ),
{
    let (b, e) = match split_to_buyout_and_exchange(
        asset,
        basic_asset,
        amount,
        basic_price,
        asset_price,
        sell_fee,
    ) {
        Ok(p) => p,
        Err(_) => {
            return Err(ValidityError::Math);
        },
    };
    if b < min_amount_to_buyout {
        return Err(ValidityError::LessThanMinBuyoutAmount);
    }
    match balance {
        SignedBalance::Positive(v) => {
            if v < e {
                return Err(ValidityError::NotEnoughToBuyout);
            }
        },
        SignedBalance::Negative(_) => {
            return Err(ValidityError::NotEnoughToBuyout);
        },
    }
    match ensure_buyout_limit_not_exceeded(limit, now, record, b) {
        Ok(_) => Ok(()),
        Err(_) => Err(ValidityError::BuyoutLimitExceeded),
    }
}

/// The calls of the treasury.
#[derive(PartialEq, Eq, Structural, Debug, Clone, Copy)]
pub enum TreasuryCall {
    /// Buy the basic asset for `asset`.
    Buyout { asset: u64, amount: Amount },
    /// Set (or, with `None`, lift) the buyout limit.
    UpdateBuyoutLimit { limit: Option<u128> },
}

/// Checks a treasury call before dispatch: a buyout as `check_buyout`
/// (the prices, the balance and the record are those of its asset and
/// account); any other call passes.
pub fn validate_call(
    call: TreasuryCall,
    basic_asset: u64,
    basic_price: Option<u128>,
    asset_price: Option<u128>,
    sell_fee: u32,
    min_amount_to_buyout: u128,
    balance: SignedBalance,
    limit: Option<u128>,
    now: u64,
    record: (u128, u64),
) -> (r: Result<(), ValidityError>)
    requires
        call matches TreasuryCall::Buyout { asset, amount } ==> {
            &&& basic_price_ok(basic_price, sell_fee)
            &&& limit is Some ==> (split_spec(
                asset,
                basic_asset,
                amount,
                basic_price,
                asset_price,
                sell_fee,
            ) matches Ok((b, e)) ==> (b >= min_amount_to_buyout && (balance matches SignedBalance::Positive(
                v) && v >= e) ==> current_record(record, now).0 + b <= u128::MAX))
        },
    ensures
        r == (match call {
            TreasuryCall::Buyout { asset, amount } => check_buyout_spec(
                asset,
                basic_asset,
                amount,
                basic_price,
                asset_price,
                sell_fee,
                min_amount_to_buyout,
                balance,
                limit,
                now,
                record,
            ),
            TreasuryCall::UpdateBuyoutLimit { .. } => Ok(()),
        }),
{
    match call {
        TreasuryCall::Buyout { asset, amount } => check_buyout(
            asset,
            basic_asset,
            amount,
            basic_price,
            asset_price,
            sell_fee,
            min_amount_to_buyout,
            balance,
            limit,
            now,
            record,
        ),
        TreasuryCall::UpdateBuyoutLimit { .. } => Ok(()),
    }
}

// ---------------------------------------------------------------------------
// Laws
// ---------------------------------------------------------------------------

/// Exchanging for a buyout amount and converting the exchanged amount back
/// never gives more of the basic asset than was asked: both conversions
/// round down.
pub proof fn law_exchange_round_trip(
    asset: u64,
    basic_asset: u64,
    buyout_amount: u128,
    basic_price: u128,
    asset_price: u128,
    sell_fee: u32,
)
    requires
        exchange_for_spec(
            asset,
            basic_asset,
            buyout_amount,
            Some(basic_price),
            Some(asset_price),
            sell_fee,
        ) is Ok,
    ensures
        ({
            let e = exchange_for_spec(
                asset,
                basic_asset,
                buyout_amount,
                Some(basic_price),
                Some(asset_price),
                sell_fee,
            )->Ok_0;
            match buyout_for_spec(asset, basic_asset, e, Some(basic_price), Some(asset_price), sell_fee) {
                Ok(b) => b <= buyout_amount,
                Err(_) => true,
            }
        }),
{
    let pw = price_with_fee_spec(basic_price, sell_fee);
    let p = asset_price as int;
    let b = buyout_amount as int;
    let e = exchange_for_spec(
        asset,
        basic_asset,
        buyout_amount,
        Some(basic_price),
        Some(asset_price),
        sell_fee,
    )->Ok_0;
    assert(p != 0);
    assert(e as int == b * pw / p);
    assert(pw >= 0) by {
        assert(basic_price as int * fee_factor(sell_fee) >= 0) by (nonlinear_arith)
            requires
                basic_price >= 0,
                fee_factor(sell_fee) >= 0,
        ;
    }
    if pw != 0 {
        vstd::arithmetic::div_mod::lemma_fundamental_div_mod(b * pw, p);
        assert(p * (b * pw / p) <= b * pw) by {
            assert((b * pw) % p >= 0) by {
                vstd::arithmetic::div_mod::lemma_mod_bound(b * pw, p);
            }
        }
        assert(e * p <= b * pw) by (nonlinear_arith)
            requires
                p * (b * pw / p) <= b * pw,
                e as int == b * pw / p,
        ;
        vstd::arithmetic::div_mod::lemma_div_is_ordered(e * p, b * pw, pw);
        vstd::arithmetic::div_mod::lemma_div_by_multiple(b, pw);
    }
}

/// A buyout that passes its checks leaves the account's buyouts of the
/// period within the limit.
pub proof fn law_buyouts_within_limit(
    asset: u64,
    basic_asset: u64,
    amount: Amount,
    basic_price: Option<u128>,
    asset_price: Option<u128>,
    sell_fee: u32,
    limit: u128,
    now: u64,
    record: (u128, u64),
)
    requires
        buyout_plan_spec(
            asset,
            basic_asset,
            amount,
            basic_price,
            asset_price,
            sell_fee,
            Some(limit),
            now,
            record,
        ) is Ok,
    ensures
        buyout_plan_spec(
            asset,
            basic_asset,
            amount,
            basic_price,
            asset_price,
            sell_fee,
            Some(limit),
            now,
            record,
        )->Ok_0.record.0 <= limit,
{
}

/// The priorities are in order.
pub open spec fn priorities_sorted(s: Seq<BuyoutAsset>) -> bool {
    forall|i: int, j: int| 0 <= i <= j < s.len() ==> s[i].priority <= s[j].priority
}

proof fn lemma_insert_keeps_order(s: Seq<BuyoutAsset>, x: BuyoutAsset)
    requires
        priorities_sorted(s),
    ensures
        priorities_sorted(insert_by_priority(s, x)),
        insert_by_priority(s, x).to_multiset() == s.to_multiset().insert(x),
        insert_by_priority(s, x).len() == s.len() + 1,
        forall|i: int|
            0 <= i < insert_by_priority(s, x).len() ==> (#[trigger] insert_by_priority(s, x)[i]
                == x || s.contains(insert_by_priority(s, x)[i])),
    decreases s.len(),
{
    broadcast use vstd::multiset::group_multiset_axioms;
    if s.len() == 0 {
        assert(seq![x] =~= Seq::<BuyoutAsset>::empty().push(x));
        vstd::seq_lib::to_multiset_build(Seq::<BuyoutAsset>::empty(), x);
        vstd::seq_lib::to_multiset_len(s);
        vstd::seq_lib::to_multiset_len(Seq::<BuyoutAsset>::empty());
        vstd::multiset::lemma_multiset_empty_len(s.to_multiset());
        vstd::multiset::lemma_multiset_empty_len(Seq::<BuyoutAsset>::empty().to_multiset());
    } else if s.last().priority <= x.priority {
        vstd::seq_lib::to_multiset_build(s, x);
    } else {
        let d = s.drop_last();
        assert(priorities_sorted(d));
        lemma_insert_keeps_order(d, x);
        let t = insert_by_priority(d, x);
        vstd::seq_lib::to_multiset_build(t, s.last());
        vstd::seq_lib::to_multiset_build(d, s.last());
        assert(d.push(s.last()) =~= s);
        assert forall|i: int, j: int|
            0 <= i <= j < t.push(s.last()).len() implies t.push(s.last())[i].priority <= t.push(
            s.last(),
        )[j].priority by {
            if j == t.len() && i < t.len() {
                if t[i] == x {
                } else {
                    assert(d.contains(t[i]));
                    let m = choose|m: int| 0 <= m < d.len() && d[m] == t[i];
                    assert(s[m] == d[m]);
                }
            }
        }
        assert forall|i: int| 0 <= i < t.push(s.last()).len() implies (#[trigger] t.push(
            s.last(),
        )[i] == x || s.contains(t.push(s.last())[i])) by {
            if i < t.len() {
                if t[i] != x {
                    let m = choose|m: int| 0 <= m < d.len() && d[m] == t[i];
                    assert(s[m] == d[m]);
                }
            } else {
                assert(s[s.len() - 1] == s.last());
            }
        }
    }
}

/// The buyout spends the assets in the order of their priority: the sorted
/// assets are in priority order and are the same assets, each as often.
pub proof fn law_sort_by_priority(s: Seq<BuyoutAsset>)
    ensures
        priorities_sorted(sort_by_priority(s)),
        sort_by_priority(s).to_multiset() == s.to_multiset(),
    decreases s.len(),
{
    broadcast use vstd::multiset::group_multiset_axioms;
    if s.len() > 0 {
        law_sort_by_priority(s.drop_last());
        lemma_insert_keeps_order(sort_by_priority(s.drop_last()), s.last());
        vstd::seq_lib::to_multiset_build(s.drop_last(), s.last());
        assert(s.drop_last().push(s.last()) =~= s);
    } else {
        assert(sort_by_priority(s) == s);
    }
}

} // verus!
