//! Decisions of the rate pallet around the interest fee: which accounts an
//! authority's offchain worker checks and what it submits for them, whether
//! an account needs a reinit, how an unsigned request is validated, what a
//! reinit does after charging the fee, and how fee errors are reported.
use crate::balance::SignedBalance;
use crate::rate::InterestRateError;
use vstd::prelude::*;

verus! {

/// Custom validity code of a request whose validator count does not match the keys.
pub const INVALID_VALIDATORS_LEN: u8 = 10;

/// Custom validity code of a request whose check did not pass.
pub const CHECK_NOT_PASSED: u8 = 20;

/// Longevity, in blocks, of a valid unsigned request.
pub const UNSIGNED_LONGEVITY: u64 = 5;

/// Errors of the rate pallet's dispatchables.
#[derive(PartialEq, Eq, Structural, Debug, Clone, Copy)]
pub enum RateError {
    InvalidOffset,
    AutoReinitIsDisabled,
    MethodNotAllowed,
    NoPrices,
    NoFinancial,
    ExternalError,
    MathError,
    ValueError,
    ValidationError,
    LastUpdateInFuture,
    AssetNotInRemovalQueue,
    /// An arithmetic overflow.
    Overflow,
}

// ---------------------------------------------------------------------------
// Offchain worker
// ---------------------------------------------------------------------------

/// Whether the account at `index` falls in the window of the authority
/// `authority_index`: its index modulo the number of validators is the
/// authority's index or a neighbour of it.
pub open spec fn in_window_spec(index: usize, validators_len: u32, authority_index: u32) -> bool {
    let m = (index as u32) as int % (validators_len as int);
    m + 1 >= authority_index && m <= authority_index + 1
}

/// Whether the account at `index` falls in the window of the authority.
/// The computation divides by the number of validators and adds one to the
/// authority index, which the precondition keeps from failing.
pub fn in_auth_window(index: usize, validators_len: u32, authority_index: u32) -> (r: bool)
    requires
        validators_len > 0,
        authority_index < u32::MAX,
    ensures
        r == in_window_spec(index, validators_len, authority_index),
{
    let m = (index as u32) % validators_len;
    m + 1 >= authority_index && m <= authority_index + 1
}

/// Whether the account at `index` is the authority's own (its requests get
/// the higher priority).
pub open spec fn own_account_spec(index: usize, validators_len: u32, authority_index: u32) -> bool {
    (index as u32) as int % (validators_len as int) == authority_index
}

/// Whether the offchain worker of this node runs at a block: only on a
/// validator, and only while automatic reinits are enabled.
pub fn offchain_worker_runs(is_validator: bool, auto_reinit_enabled: bool) -> (r: bool)
    ensures
        r == (is_validator && auto_reinit_enabled),
{
    is_validator && auto_reinit_enabled
}

/// Automatic reinits are enabled until they are switched off.
#[allow(non_snake_case)]
pub fn DefaultForAutoReinitEnabled() -> (r: bool)
    ensures
        r,
{
    true
}

/// An account as the offchain worker reads it: whether it is a technical
/// account (bailsman or distribution), whether it needs a reinit, whether it
/// can be deleted, and its balances of the assets, each with whether the
/// total debt of the asset is zero.
#[derive(Debug, Clone)]
pub struct AccountCheck {
    pub account: u64,
    pub technical: bool,
    pub need_reinit: bool,
    pub can_be_deleted: bool,
    pub balances: Vec<(u64, SignedBalance, bool)>,
}

/// A request that the offchain worker submits.
#[derive(PartialEq, Eq, Structural, Debug, Clone, Copy)]
pub enum OffchainAction {
    Reinit { account: u64, higher_priority: bool },
    DeleteAccount { account: u64, higher_priority: bool },
    /// Withdraw a held balance of an asset being removed.
    Withdraw { account: u64, asset: u64, amount: u128 },
    /// Deposit over a debt in an asset being removed.
    Deposit { account: u64, asset: u64, amount: u128 },
}

/// Whether `asset` is in the removal queue.
pub open spec fn queued(assets_to_remove: Seq<u64>, asset: u64) -> bool {
    exists|k: int| 0 <= k < assets_to_remove.len() && assets_to_remove[k] == asset
}

/// Whether `asset` is in the removal queue.
pub fn in_removal_queue(assets_to_remove: &[u64], asset: u64) -> (r: bool)
    ensures
        r == queued(assets_to_remove@, asset),
{
    let mut k: usize = 0;
    while k < assets_to_remove.len()
        invariant
            k <= assets_to_remove@.len(),
            forall|m: int| 0 <= m < k ==> assets_to_remove@[m] != asset,
        decreases assets_to_remove@.len() - k,
    {
        if assets_to_remove[k] == asset {
            return true;
        }
        k = k + 1;
    }
    false
}

/// The removal request for one balance, if any: a debt is deposited over; a
/// held balance is withdrawn once nobody owes the asset.
pub open spec fn removal_action(account: u64, b: (u64, SignedBalance, bool), assets_to_remove: Seq<
    u64,
>) -> Option<OffchainAction> {
    if !queued(assets_to_remove, b.0) {
        None
    } else {
        match b.1 {
            SignedBalance::Negative(v) => Some(
                OffchainAction::Deposit { account, asset: b.0, amount: v },
            ),
            SignedBalance::Positive(v) => if b.2 {
                Some(OffchainAction::Withdraw { account, asset: b.0, amount: v })
            } else {
                None
            },
        }
    }
}

/// Removal requests for the balances from index `k` on.
pub open spec fn removal_actions(
    account: u64,
    balances: Seq<(u64, SignedBalance, bool)>,
    assets_to_remove: Seq<u64>,
    k: int,
) -> Seq<OffchainAction>
    decreases balances.len() - k,
{
    if k < 0 || k >= balances.len() {
        seq![]
    } else {
        match removal_action(account, balances[k], assets_to_remove) {
            Some(a) => seq![a] + removal_actions(account, balances, assets_to_remove, k + 1),
            None => removal_actions(account, balances, assets_to_remove, k + 1),
        }
    }
}

/// Requests for one account: a reinit where needed and a deletion where
/// possible (neither for a technical account), then the removal requests.
pub open spec fn account_actions_spec(c: AccountCheck, own: bool, assets_to_remove: Seq<u64>) -> Seq<
    OffchainAction,
> {
    let reinit: Seq<OffchainAction> = if !c.technical && c.need_reinit {
        seq![OffchainAction::Reinit { account: c.account, higher_priority: own }]
    } else {
        seq![]
    };
    let delete: Seq<OffchainAction> = if !c.technical && c.can_be_deleted {
        seq![OffchainAction::DeleteAccount { account: c.account, higher_priority: own }]
    } else {
        seq![]
    };
    reinit + delete + removal_actions(c.account, c.balances@, assets_to_remove, 0)
}

/// Requests for the accounts from index `i` on that fall in the window.
pub open spec fn window_actions(
    accounts: Seq<AccountCheck>,
    validators_len: u32,
    authority_index: u32,
    assets_to_remove: Seq<u64>,
    i: int,
) -> Seq<OffchainAction>
    decreases accounts.len() - i,
{
    if i < 0 || i >= accounts.len() {
        seq![]
    } else if in_window_spec(i as usize, validators_len, authority_index) {
        account_actions_spec(
            accounts[i],
            own_account_spec(i as usize, validators_len, authority_index),
            assets_to_remove,
        ) + window_actions(accounts, validators_len, authority_index, assets_to_remove, i + 1)
    } else {
        window_actions(accounts, validators_len, authority_index, assets_to_remove, i + 1)
    }
}

fn account_actions(c: &AccountCheck, own: bool, assets_to_remove: &[u64], out: &mut Vec<
    OffchainAction,
>)
    ensures
        final(out)@ == old(out)@ + account_actions_spec(*c, own, assets_to_remove@),
{
    let ghost start = out@;
    if !c.technical && c.need_reinit {
        out.push(OffchainAction::Reinit { account: c.account, higher_priority: own });
    }
    if !c.technical && c.can_be_deleted {
        out.push(OffchainAction::DeleteAccount { account: c.account, higher_priority: own });
    }
    let ghost mid = out@;
    proof {
        let reinit: Seq<OffchainAction> = if !c.technical && c.need_reinit {
            seq![OffchainAction::Reinit { account: c.account, higher_priority: own }]
        } else {
            seq![]
        };
        let delete: Seq<OffchainAction> = if !c.technical && c.can_be_deleted {
            seq![OffchainAction::DeleteAccount { account: c.account, higher_priority: own }]
        } else {
            seq![]
        };
        assert(mid =~= start + reinit + delete);
    }
    let mut k: usize = 0;
    while k < c.balances.len()
        invariant
            k <= c.balances@.len(),
            mid + removal_actions(c.account, c.balances@, assets_to_remove@, 0) == out@
                + removal_actions(c.account, c.balances@, assets_to_remove@, k as int),
        decreases c.balances@.len() - k,
    {
        let (asset, balance, debt_zero) = c.balances[k];
        if in_removal_queue(assets_to_remove, asset) {
            match balance {
                SignedBalance::Negative(v) => {
                    let a = OffchainAction::Deposit { account: c.account, asset, amount: v };
                    proof {
                        assert(out@.push(a) + removal_actions(
                            c.account,
                            c.balances@,
                            assets_to_remove@,
                            k + 1,
                        ) =~= out@ + (seq![a] + removal_actions(
                            c.account,
                            c.balances@,
                            assets_to_remove@,
                            k + 1,
                        )));
                    }
                    out.push(a);
                },
                SignedBalance::Positive(v) => {
                    if debt_zero {
                        let a = OffchainAction::Withdraw { account: c.account, asset, amount: v };
                        proof {
                            assert(out@.push(a) + removal_actions(
                                c.account,
                                c.balances@,
                                assets_to_remove@,
                                k + 1,
                            ) =~= out@ + (seq![a] + removal_actions(
                                c.account,
                                c.balances@,
                                assets_to_remove@,
                                k + 1,
                            )));
                        }
                        out.push(a);
                    }
                },
            }
        }
        k = k + 1;
    }
    proof {
        assert(out@ + Seq::<OffchainAction>::empty() =~= out@);
        assert(start + account_actions_spec(*c, own, assets_to_remove@) =~= mid + removal_actions(
            c.account,
            c.balances@,
            assets_to_remove@,
            0,
        ));
    }
}

/// What the offchain worker of the authority `authority_index` submits for
/// the accounts, in order: for each account in its window, a reinit where
/// one is needed, a deletion where the account can be deleted (requests for
/// its own accounts get the higher priority), and the removal requests for
/// its balances of assets being removed. The submission stops at the first
/// request that cannot be submitted.
pub fn check_accounts_for_single_auth(
    accounts: &Vec<AccountCheck>,
    validators_len: u32,
    authority_index: u32,
    assets_to_remove: &[u64],
) -> (r: Vec<OffchainAction>)
    requires
        validators_len > 0,
        authority_index < u32::MAX,
    ensures
        r@ == window_actions(accounts@, validators_len, authority_index, assets_to_remove@, 0),
{
    let mut out: Vec<OffchainAction> = Vec::new();
    let mut i: usize = 0;
    proof {
        assert(out@ + window_actions(accounts@, validators_len, authority_index, assets_to_remove@, 0)
            =~= window_actions(accounts@, validators_len, authority_index, assets_to_remove@, 0));
    }
    while i < accounts.len()
        invariant
            i <= accounts@.len(),
            validators_len > 0,
            authority_index < u32::MAX,
            window_actions(accounts@, validators_len, authority_index, assets_to_remove@, 0)
                == out@ + window_actions(
                accounts@,
                validators_len,
                authority_index,
                assets_to_remove@,
                i as int,
            ),
        decreases accounts@.len() - i,
    {
        if in_auth_window(i, validators_len, authority_index) {
            let own = (i as u32) % validators_len == authority_index;
            let ghost before = out@;
            account_actions(&accounts[i], own, assets_to_remove, &mut out);
            proof {
                let rest = window_actions(
                    accounts@,
                    validators_len,
                    authority_index,
                    assets_to_remove@,
                    i + 1,
                );
                assert(before + (account_actions_spec(accounts@[i as int], own, assets_to_remove@)
                    + rest) =~= out@ + rest);
            }
        }
        i = i + 1;
    }
    proof {
        assert(out@ + Seq::<OffchainAction>::empty() =~= out@);
    }
    out
}

/// The authorities whose key is among the local keys, each with its index.
pub open spec fn local_keys_from(authorities: Seq<u64>, local: Seq<u64>, i: int) -> Seq<(u32, u64)>
    decreases authorities.len() - i,
{
    if i < 0 || i >= authorities.len() {
        seq![]
    } else if local.contains(authorities[i]) {
        seq![(i as u32, authorities[i])] + local_keys_from(authorities, local, i + 1)
    } else {
        local_keys_from(authorities, local, i + 1)
    }
}

/// The session authorities whose key this node holds, with their index in
/// the authority list.
pub fn local_authority_keys(authorities: &Vec<u64>, local: &Vec<u64>) -> (r: Vec<(u32, u64)>)
    ensures
        r@ == local_keys_from(authorities@, local@, 0),
{
    let mut out: Vec<(u32, u64)> = Vec::new();
    let mut i: usize = 0;
    proof {
        assert(out@ + local_keys_from(authorities@, local@, 0) =~= local_keys_from(
            authorities@,
            local@,
            0,
        ));
    }
    while i < authorities.len()
        invariant
            i <= authorities@.len(),
            local_keys_from(authorities@, local@, 0) == out@ + local_keys_from(
                authorities@,
                local@,
                i as int,
            ),
        decreases authorities@.len() - i,
    {
        let a = authorities[i];
        let mut found = false;
        let mut k: usize = 0;
        while k < local.len()
            invariant
                k <= local@.len(),
                found == (exists|m: int| 0 <= m < k && local@[m] == a),
            decreases local@.len() - k,
        {
            if local[k] == a {
                found = true;
            }
            k = k + 1;
        }
        if found {
            let e = (i as u32, a);
            proof {
                assert(local@.contains(a));
                assert(out@.push(e) + local_keys_from(authorities@, local@, i + 1) =~= out@ + (seq![
                    e,
                ] + local_keys_from(authorities@, local@, i + 1)));
            }
            out.push(e);
        } else {
            proof {
                assert(!local@.contains(a));
            }
        }
        i = i + 1;
    }
    proof {
        assert(out@ + Seq::<(u32, u64)>::empty() =~= out@);
    }
    out
}

// ---------------------------------------------------------------------------
// Whether an account needs a reinit
// ---------------------------------------------------------------------------

/// Whether an account needs a reinit. `first_check` is the margin check with
/// the account's pending bailsman distribution (`Some(good)`, or `None`
/// where the check failed); `fee` the interest fee (or the error computing
/// it); `second_check` the margin check once the fee is charged (read only
/// where the first check decides nothing). A failed check never calls for a
/// margin call; a fee that cannot be computed counts as zero.
pub open spec fn need_to_reinit_spec(
    first_check: Option<bool>,
    fee: Result<u128, InterestRateError>,
    second_check: Option<bool>,
    min_surplus: u128,
) -> bool {
    if first_check == Some(false) {
        true
    } else {
        let f: u128 = match fee {
            Ok(f) => f,
            Err(_) => 0,
        };
        second_check == Some(false) || f > min_surplus
    }
}

/// Whether an account needs a reinit: its position is (or becomes once the
/// fee is charged) not good, or the fee exceeds the minimal surplus.
pub fn need_to_reinit(
    first_check: Option<bool>,
    fee: Result<u128, InterestRateError>,
    second_check: Option<bool>,
    min_surplus: u128,
) -> (r: bool)
    ensures
        r == need_to_reinit_spec(first_check, fee, second_check, min_surplus),
{
    let mut can_reinit = match first_check {
        Some(good) => !good,
        None => false,
    };
    if !can_reinit {
        let f: u128 = match fee {
            Ok(f) => f,
            Err(_) => 0,
        };
        let need_to_mc = match second_check {
            Some(good) => !good,
            None => false,
        };
        can_reinit = need_to_mc || f > min_surplus;
    }
    can_reinit
}

// ---------------------------------------------------------------------------
// Validation of unsigned requests
// ---------------------------------------------------------------------------

/// The unsigned calls of the rate pallet.
#[derive(PartialEq, Eq, Structural, Debug, Clone, Copy)]
pub enum RateCall {
    Reinit,
    DeleteAccount,
    Withdraw,
    Deposit,
}

/// Why an unsigned request is invalid.
#[derive(PartialEq, Eq, Structural, Debug, Clone, Copy)]
pub enum InvalidRequest {
    /// Custom error: the validator count does not match the keys.
    InvalidValidatorsLen,
    /// No key at the authority index, or a bad signature.
    BadProof,
    /// Custom error: the request's check did not pass.
    CheckNotPassed,
    /// Not an unsigned call of this pallet.
    Call,
}

impl InvalidRequest {
    /// The custom code, for the custom errors.
    pub fn custom_code(&self) -> (r: Option<u8>)
        ensures
            r == (match *self {
                InvalidRequest::InvalidValidatorsLen => Some(INVALID_VALIDATORS_LEN),
                InvalidRequest::CheckNotPassed => Some(CHECK_NOT_PASSED),
                _ => None::<u8>,
            }),
    {
        match self {
            InvalidRequest::InvalidValidatorsLen => Some(INVALID_VALIDATORS_LEN),
            InvalidRequest::CheckNotPassed => Some(CHECK_NOT_PASSED),
            _ => None,
        }
    }
}

/// A valid unsigned request: its tag prefix is given by the call
/// (`tag_prefix`), it provides the account's tag, lives `longevity` blocks
/// and is propagated where `propagate` says so.
#[derive(PartialEq, Eq, Structural, Debug, Clone, Copy)]
pub struct ValidRequest {
    pub call: RateCall,
    pub priority: u64,
    pub provides: u64,
    pub longevity: u64,
    pub propagate: bool,
}

/// An unsigned request of the offchain workers: its call, the account (a
/// deposit or a withdrawal always names one; a reinit or a deletion may
/// not), the asset (of a deposit or a withdrawal), the number of
/// validators and the authority index it was signed with, and its priority.
#[derive(PartialEq, Eq, Structural, Debug, Clone, Copy)]
pub struct UnsignedRequest {
    pub call: RateCall,
    pub account: Option<u64>,
    pub asset: u64,
    pub validators_len: u32,
    pub authority_index: u32,
    pub higher_priority: bool,
}

/// What `need_to_reinit` reads for the request's account.
#[derive(Debug, Clone, Copy)]
pub struct ReinitCheck {
    pub first_check: Option<bool>,
    pub fee: Result<u128, InterestRateError>,
    pub second_check: Option<bool>,
    pub min_surplus: u128,
}

/// The tag prefix of a valid request.
pub fn tag_prefix(call: RateCall) -> (r: &'static str)
    ensures
        call == RateCall::Reinit ==> r@ == "EqFee"@,
        call == RateCall::DeleteAccount ==> r@ == "DelAcc"@,
        call == RateCall::Withdraw ==> r@ == "Withdraw"@,
        call == RateCall::Deposit ==> r@ == "Deposit"@,
{
    match call {
        RateCall::Reinit => "EqFee",
        RateCall::DeleteAccount => "DelAcc",
        RateCall::Withdraw => "Withdraw",
        RateCall::Deposit => "Deposit",
    }
}

/// The assets queued for removal, none where nothing is stored.
pub open spec fn removal_queue(assets_to_remove: Option<Vec<u64>>) -> Seq<u64> {
    match assets_to_remove {
        Some(v) => v@,
        None => Seq::empty(),
    }
}

/// The call's own check: a reinit needs the account to need one; a
/// deletion needs the account to be deletable (a failed check counts as
/// not); a deposit or a withdrawal needs its asset queued for removal.
pub open spec fn request_check_spec(
    q: UnsignedRequest,
    reinit: ReinitCheck,
    can_be_deleted: Result<bool, ()>,
    assets_to_remove: Seq<u64>,
) -> bool {
    match q.call {
        RateCall::Reinit => need_to_reinit_spec(
            reinit.first_check,
            reinit.fee,
            reinit.second_check,
            reinit.min_surplus,
        ),
        RateCall::DeleteAccount => can_be_deleted == Ok::<bool, ()>(true),
        _ => queued(assets_to_remove, q.asset),
    }
}

/// The signature checks of a request pass: the validator count matches the
/// keys, there is a key at the authority index and the signature is valid.
pub open spec fn signature_passes(q: UnsignedRequest, keys_len: usize, signature_valid: bool) -> bool {
    q.validators_len == keys_len as u32 && (q.authority_index as int) < keys_len as int
        && signature_valid
}

/// Outcome of the validation of an unsigned request.
pub open spec fn validate_spec(
    req: Option<UnsignedRequest>,
    keys_len: usize,
    signature_valid: bool,
    reinit: ReinitCheck,
    can_be_deleted: Result<bool, ()>,
    assets_to_remove: Seq<u64>,
    unsigned_priority: u64,
) -> Result<ValidRequest, InvalidRequest> {
    match req {
        None => Err(InvalidRequest::Call),
        Some(q) => if keys_len as u32 != q.validators_len {
            Err(InvalidRequest::InvalidValidatorsLen)
        } else if q.authority_index as int >= keys_len as int || !signature_valid {
            Err(InvalidRequest::BadProof)
        } else if !request_check_spec(q, reinit, can_be_deleted, assets_to_remove) {
            Err(InvalidRequest::CheckNotPassed)
        } else {
            Ok(
                ValidRequest {
                    call: q.call,
                    priority: if q.higher_priority {
                        (unsigned_priority + 1) as u64
                    } else {
                        unsigned_priority
                    },
                    provides: q.account->Some_0,
                    longevity: UNSIGNED_LONGEVITY,
                    propagate: true,
                },
            )
        },
    }
}

/// Validates an unsigned request of the offchain workers. `req` is `None`
/// for a call that is not one of them; `keys_len` the number of authority
/// keys; `signature_valid` whether the request is signed by the key at the
/// authority index (read only where there is one). The call's own check
/// reads `reinit` (what `need_to_reinit` reads for the account),
/// `can_be_deleted` (the currency's answer for the account) and the assets
/// queued for removal. The higher priority adds one to the configured
/// priority.
pub fn validate_unsigned(
    req: Option<UnsignedRequest>,
    keys_len: usize,
    signature_valid: bool,
    reinit: ReinitCheck,
    can_be_deleted: Result<bool, ()>,
    assets_to_remove: &Option<Vec<u64>>,
    unsigned_priority: u64,
) -> (r: Result<ValidRequest, InvalidRequest>)
    requires
        req matches Some(q) ==> (signature_passes(q, keys_len, signature_valid) ==> q.account is Some
            && (q.higher_priority ==> unsigned_priority < u64::MAX)),
    ensures
        r == validate_spec(
            req,
            keys_len,
            signature_valid,
            reinit,
            can_be_deleted,
            removal_queue(*assets_to_remove),
            unsigned_priority,
        ),
{
    let q = match req {
        Some(q) => q,
        None => {
            return Err(InvalidRequest::Call);
        },
    };
    if keys_len as u32 != q.validators_len {
        return Err(InvalidRequest::InvalidValidatorsLen);
    }
    if q.authority_index as usize >= keys_len {
        return Err(InvalidRequest::BadProof);
    }
    if !signature_valid {
        return Err(InvalidRequest::BadProof);
    }
    let passed = match q.call {
        RateCall::Reinit => need_to_reinit(
            reinit.first_check,
            reinit.fee,
            reinit.second_check,
            reinit.min_surplus,
        ),
        RateCall::DeleteAccount => match can_be_deleted {
            Ok(b) => b,
            Err(_) => false,
        },
        _ => match assets_to_remove {
            Some(v) => in_removal_queue(v.as_slice(), q.asset),
            None => false,
        },
    };
    if !passed {
        return Err(InvalidRequest::CheckNotPassed);
    }
    let priority = if q.higher_priority {
        unsigned_priority + 1
    } else {
        unsigned_priority
    };
    let provides = match q.account {
        Some(a) => a,
        None => 0,
    };
    Ok(ValidRequest { call: q.call, priority, provides, longevity: UNSIGNED_LONGEVITY, propagate: true })
}

// ---------------------------------------------------------------------------
// Reinit after dispatch
// ---------------------------------------------------------------------------

/// The number of bailsmen over which a reinit's redistribution is weighed.
pub const REINIT_REDISTRIBUTE_COUNT: u32 = 30;

/// The weight a reinit reports once dispatched.
#[derive(PartialEq, Eq, Structural, Debug, Clone, Copy)]
pub enum ReinitWeight {
    /// The weight of a reinit.
    Reinit,
    /// The weight of a reinit plus that of a bailsman redistribution over
    /// the given count.
    ReinitAndRedistribute(u32),
}

/// What a dispatched reinit reports: its actual weight, and whether the fee
/// is paid.
#[derive(PartialEq, Eq, Structural, Debug, Clone, Copy)]
pub struct ReinitPostDispatch {
    pub actual_weight: ReinitWeight,
    pub pays_fee: bool,
}

/// The weight reported after a successful reinit: a bailsman's reinit adds
/// the weight of a redistribution over `REINIT_REDISTRIBUTE_COUNT`; the
/// fee is paid.
pub fn reinit_post_dispatch(is_bailsman: bool) -> (r: ReinitPostDispatch)
    ensures
        r.actual_weight == (if is_bailsman {
            ReinitWeight::ReinitAndRedistribute(REINIT_REDISTRIBUTE_COUNT)
        } else {
            ReinitWeight::Reinit
        }),
        r.pays_fee,
{
    let actual_weight = if is_bailsman {
        ReinitWeight::ReinitAndRedistribute(REINIT_REDISTRIBUTE_COUNT)
    } else {
        ReinitWeight::Reinit
    };
    ReinitPostDispatch { actual_weight, pays_fee: true }
}

// ---------------------------------------------------------------------------
// Reinit and fee charging
// ---------------------------------------------------------------------------

/// How a fee error is reported when charging the fee: `None` for a zero
/// debt, which is no error (nothing is charged).
pub open spec fn charge_error_spec(e: InterestRateError) -> Option<RateError> {
    match e {
        InterestRateError::ExternalError => Some(RateError::ExternalError),
        InterestRateError::NoPrices => Some(RateError::NoPrices),
        InterestRateError::NoFinancial => Some(RateError::NoFinancial),
        InterestRateError::MathError => Some(RateError::MathError),
        InterestRateError::ValueError => Some(RateError::ValueError),
        InterestRateError::LastUpdateInFuture => Some(RateError::LastUpdateInFuture),
        InterestRateError::Overflow => Some(RateError::Overflow),
        InterestRateError::ZeroDebt => None,
    }
}

/// The error that charging the fee reports for a fee error.
pub fn charge_fee_error(e: InterestRateError) -> (r: Option<RateError>)
    ensures
        r == charge_error_spec(e),
{
    match e {
        InterestRateError::ExternalError => Some(RateError::ExternalError),
        InterestRateError::NoPrices => Some(RateError::NoPrices),
        InterestRateError::NoFinancial => Some(RateError::NoFinancial),
        InterestRateError::MathError => Some(RateError::MathError),
        InterestRateError::ValueError => Some(RateError::ValueError),
        InterestRateError::LastUpdateInFuture => Some(RateError::LastUpdateInFuture),
        InterestRateError::Overflow => Some(RateError::Overflow),
        InterestRateError::ZeroDebt => None,
    }
}

/// Sum of the lender fees of the assets whose lending pool accepted the reward.
pub open spec fn accepted_sum(fees: Seq<(u64, u128)>, accepted: Seq<bool>, n: int) -> int
    decreases n,
{
    if n <= 0 {
        0
    } else {
        accepted_sum(fees, accepted, n - 1) + if accepted[n - 1] {
            fees[n - 1].1 as int
        } else {
            0
        }
    }
}

proof fn lemma_accepted_sum_mono(fees: Seq<(u64, u128)>, accepted: Seq<bool>, m: int, n: int)
    requires
        0 <= m <= n,
    ensures
        accepted_sum(fees, accepted, m) <= accepted_sum(fees, accepted, n),
    decreases n - m,
{
    if m < n {
        lemma_accepted_sum_mono(fees, accepted, m, n - 1);
    }
}

/// The lender fee charged from an account: the sum of the fees of the assets
/// whose lending pool accepted the reward (`accepted`, one flag per fee).
pub fn lender_fee_total(fees: &Vec<(u64, u128)>, accepted: &Vec<bool>) -> (r: u128)
    requires
        accepted@.len() == fees@.len(),
        accepted_sum(fees@, accepted@, fees@.len() as int) <= u128::MAX,
    ensures
        r == accepted_sum(fees@, accepted@, fees@.len() as int),
{
    let mut total: u128 = 0;
    let mut k: usize = 0;
    while k < fees.len()
        invariant
            k <= fees@.len(),
            accepted@.len() == fees@.len(),
            accepted_sum(fees@, accepted@, fees@.len() as int) <= u128::MAX,
            total == accepted_sum(fees@, accepted@, k as int),
        decreases fees@.len() - k,
    {
        proof {
            lemma_accepted_sum_mono(fees@, accepted@, k + 1, fees@.len() as int);
        }
        if accepted[k] {
            total = total + fees[k].1;
        }
        k = k + 1;
    }
    total
}

/// What a reinit does once the fee is charged (or failed): a debt in the
/// basic asset is bought out, the update time is set, and a fee error is
/// kept to be returned after the margin call.
#[derive(PartialEq, Eq, Structural, Debug, Clone, Copy)]
pub struct AfterCharge {
    pub buyout: Option<u128>,
    pub set_last_update: bool,
    pub keep_error: bool,
}

/// What a reinit does after charging the fee: where the fee was charged, a
/// debt in the basic asset is bought out and the update time set; where it
/// failed, an account never updated gets its update time, any other keeps
/// the error.
pub fn after_charge(charged: bool, last_update: u64, basic_balance: SignedBalance) -> (r: AfterCharge)
    ensures
        charged ==> r == (AfterCharge {
            buyout: match basic_balance {
                SignedBalance::Negative(v) => Some(v),
                SignedBalance::Positive(_) => None,
            },
            set_last_update: true,
            keep_error: false,
        }),
        !charged ==> r == (AfterCharge {
            buyout: None,
            set_last_update: last_update == 0,
            keep_error: last_update != 0,
        }),
{
    if charged {
        let buyout = match basic_balance {
            SignedBalance::Negative(v) => Some(v),
            SignedBalance::Positive(_) => None,
        };
        AfterCharge { buyout, set_last_update: true, keep_error: false }
    } else {
        AfterCharge { buyout: None, set_last_update: last_update == 0, keep_error: last_update != 0 }
    }
}

/// Whether a reinit of `who` first redistributes to it as a bailsman: a
/// bailsman's pending distribution comes before the margin check, except
/// for the technical accounts, which are not reinited.
pub fn reinit_redistributes_first(
    who: u64,
    bailsman_account: u64,
    distribution_account: u64,
    is_bailsman: bool,
) -> (r: bool)
    ensures
        r == (who != bailsman_account && who != distribution_account && is_bailsman),
{
    who != bailsman_account && who != distribution_account && is_bailsman
}

/// How a reinit begins.
#[derive(PartialEq, Eq, Structural, Debug, Clone, Copy)]
pub enum ReinitStart {
    /// A technical account: nothing to do.
    Skip,
    /// A subcritical position: margin call, set the update time, done.
    MarginCall,
    /// Charge the fee.
    ChargeFee,
}

/// How a reinit of `who` begins, given the margin check of its position.
pub fn reinit_start(who: u64, bailsman_account: u64, distribution_account: u64, subcritical: bool) -> (r:
    ReinitStart)
    ensures
        r == (if who == bailsman_account || who == distribution_account {
            ReinitStart::Skip
        } else if subcritical {
            ReinitStart::MarginCall
        } else {
            ReinitStart::ChargeFee
        }),
{
    if who == bailsman_account || who == distribution_account {
        ReinitStart::Skip
    } else if subcritical {
        ReinitStart::MarginCall
    } else {
        ReinitStart::ChargeFee
    }
}

/// Sets the time offset (milliseconds) of test builds: it may only grow.
pub fn set_now_millis_offset(current: u64, offset: u64) -> (r: Result<u64, RateError>)
    ensures
        offset > current ==> r == Ok::<u64, RateError>(offset),
        offset <= current ==> r == Err::<u64, RateError>(RateError::InvalidOffset),
{
    if offset > current {
        Ok(offset)
    } else {
        Err(RateError::InvalidOffset)
    }
}

/// The pallet's clock in whole seconds: the time source's reading (seconds
/// and nanoseconds) plus the offset in milliseconds, outside production builds.
pub fn now_secs(source_secs: u64, now_nanos: u32, offset_millis: u64, production: bool) -> (r: u64)
    requires
        now_nanos < 1_000_000_000,
        !production ==> source_secs + offset_millis / 1000 + (now_nanos + (offset_millis % 1000)
            * 1_000_000) / 1_000_000_000 <= u64::MAX,
    ensures
        production ==> r == source_secs,
        !production ==> r == source_secs + offset_millis / 1000 + (now_nanos + (offset_millis % 1000)
            * 1_000_000) / 1_000_000_000,
{
    if production {
        source_secs
    } else {
        let nanos: u64 = now_nanos as u64 + (offset_millis % 1000) * 1_000_000;
        source_secs + offset_millis / 1000 + nanos / 1_000_000_000
    }
}

/// The subaccounts reinited before a call of the listed kinds, where
/// reinits are enabled: the bailsman, trader and borrower subaccounts of
/// the caller, those it has, in that order.
pub fn reinit_before_dispatch(
    enabled: bool,
    listed_call: bool,
    bailsman: Option<u64>,
    trader: Option<u64>,
    borrower: Option<u64>,
) -> (r: Vec<u64>)
    ensures
        !(enabled && listed_call) ==> r@ == Seq::<u64>::empty(),
        enabled && listed_call ==> r@ == (match bailsman {
            Some(a) => seq![a],
            None => Seq::<u64>::empty(),
        }) + (match trader {
            Some(a) => seq![a],
            None => Seq::<u64>::empty(),
        }) + (match borrower {
            Some(a) => seq![a],
            None => Seq::<u64>::empty(),
        }),
{
    let mut out: Vec<u64> = Vec::new();
    if enabled && listed_call {
        if let Some(a) = bailsman {
            out.push(a);
        }
        let ghost first = out@;
        if let Some(a) = trader {
            out.push(a);
        }
        let ghost second = out@;
        if let Some(a) = borrower {
            out.push(a);
        }
        proof {
            assert(first =~= (match bailsman {
                Some(a) => seq![a],
                None => Seq::<u64>::empty(),
            }));
            assert(second =~= first + (match trader {
                Some(a) => seq![a],
                None => Seq::<u64>::empty(),
            }));
            assert(out@ =~= second + (match borrower {
                Some(a) => seq![a],
                None => Seq::<u64>::empty(),
            }));
        }
    }
    out
}

/// No account is left unchecked: every account falls in the window of the
/// authority whose index is its own index modulo the number of validators,
/// and is that authority's own account.
pub proof fn law_every_account_has_its_authority(index: usize, validators_len: u32)
    requires
        validators_len > 0,
    ensures
        ({
            let a = ((index as u32) as int % (validators_len as int)) as u32;
            in_window_spec(index, validators_len, a) && own_account_spec(index, validators_len, a)
        }),
{
}

/// Checks an unsigned request at dispatch: a reinit needs automatic reinits
/// enabled; a reinit and an account deletion need an account; a deposit or
/// a withdrawal needs its asset in the removal queue.
pub fn check_dispatch(
    call: RateCall,
    auto_reinit_enabled: bool,
    account_given: bool,
    asset_queued: bool,
) -> (r: Result<(), RateError>)
    ensures
        r == (match call {
            RateCall::Reinit => if !auto_reinit_enabled {
                Err::<(), RateError>(RateError::AutoReinitIsDisabled)
            } else if !account_given {
                Err(RateError::ValidationError)
            } else {
                Ok(())
            },
            RateCall::DeleteAccount => if !account_given {
                Err::<(), RateError>(RateError::ValidationError)
            } else {
                Ok(())
            },
            _ => if !asset_queued {
                Err::<(), RateError>(RateError::AssetNotInRemovalQueue)
            } else {
                Ok(())
            },
        }),
{
    match call {
        RateCall::Reinit => {
            if !auto_reinit_enabled {
                Err(RateError::AutoReinitIsDisabled)
            } else if !account_given {
                Err(RateError::ValidationError)
            } else {
                Ok(())
            }
        },
        RateCall::DeleteAccount => {
            if !account_given {
                Err(RateError::ValidationError)
            } else {
                Ok(())
            }
        },
        _ => {
            if !asset_queued {
                Err(RateError::AssetNotInRemovalQueue)
            } else {
                Ok(())
            }
        },
    }
}

} // verus!
