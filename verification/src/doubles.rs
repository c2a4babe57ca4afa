//! Test doubles of the pallets' collaborators: fixed answers, and records
//! of the calls that the tests inspect.
use vstd::prelude::*;

verus! {

/// The asset `eth`.
pub const ETH: u64 = 0x657468;

/// The asset `dai`, which the asset double does not know.
pub const DAI: u64 = 0x646169;

/// The account that the author double names.
pub const AUTHOR_11_ACCOUNT: u64 = 11;

/// The first account that the subaccount double treats as a bailsman.
pub const ACCOUNT_BAILSMAN_1: u64 = 333;

/// The second account that the subaccount double treats as a bailsman.
pub const ACCOUNT_BAILSMAN_2: u64 = 444;

/// The subaccount that the subaccount double hands out.
pub const MOCK_SUBACCOUNT: u64 = 9999;

/// Records the last buyout asked for.
pub struct EqBuyoutMock {
    pub args: Option<(u64, u128)>,
}

impl EqBuyoutMock {
    pub fn new() -> (r: Self)
        ensures
            r.args is None,
    {
        EqBuyoutMock { args: None }
    }

    /// Records the buyout; it always succeeds.
    pub fn eq_buyout(&mut self, who: u64, amount: u128) -> (r: Result<(), ()>)
        ensures
            r is Ok,
            final(self).args == Some((who, amount)),
    {
        self.args = Some((who, amount));
        Ok(())
    }

    /// Any amount is enough.
    pub fn is_enough(&self, _asset: u64, _amount: u128, _amount_buyout: u128) -> (r: Result<
        bool,
        (),
    >)
        ensures
            r == Ok::<bool, ()>(true),
    {
        Ok(true)
    }
}

/// Forgets the recorded buyout.
pub fn clear_eq_buyout_args(mock: &mut EqBuyoutMock)
    ensures
        final(mock).args is None,
{
    mock.args = None;
}

/// The recorded buyout.
pub fn get_eq_buyout_args(mock: &EqBuyoutMock) -> (r: Option<(u64, u128)>)
    ensures
        r == mock.args,
{
    mock.args
}

/// Margin checks with a settable outcome (good by default).
pub struct MarginCallManagerMock {
    pub good: bool,
}

impl MarginCallManagerMock {
    pub fn new() -> (r: Self)
        ensures
            r.good,
    {
        MarginCallManagerMock { good: true }
    }

    /// Sets whether positions are good.
    pub fn set_margin_state(&mut self, good: bool)
        ensures
            final(self).good == good,
    {
        self.good = good;
    }

    /// Whether positions are good.
    pub fn get_margin_state_mock(&self) -> (r: Result<bool, ()>)
        ensures
            r == Ok::<bool, ()>(self.good),
    {
        Ok(self.good)
    }

    /// The margin check with balance changes: the set state, and that the
    /// position may change.
    pub fn check_margin_with_change(&self, _owner: u64) -> (r: Result<(bool, bool), ()>)
        ensures
            r == Ok::<(bool, bool), ()>((self.good, true)),
    {
        Ok((self.good, true))
    }

    /// A margin call leaves the set state.
    pub fn try_margincall(&self, _owner: u64) -> (r: Result<bool, ()>)
        ensures
            r == Ok::<bool, ()>(self.good),
    {
        Ok(self.good)
    }
}

/// Subaccounts that always exist (or never, as configured), all the same one.
pub struct SubaccountsManagerMock {
    pub has_subaccounts: bool,
}

impl SubaccountsManagerMock {
    pub fn create_subaccount_inner(&self, _who: u64) -> (r: Result<u64, ()>)
        ensures
            r == Ok::<u64, ()>(MOCK_SUBACCOUNT),
    {
        Ok(MOCK_SUBACCOUNT)
    }

    pub fn delete_subaccount_inner(&self, _who: u64) -> (r: Result<u64, ()>)
        ensures
            r == Ok::<u64, ()>(MOCK_SUBACCOUNT),
    {
        Ok(MOCK_SUBACCOUNT)
    }

    pub fn has_subaccount(&self, _who: u64) -> (r: bool)
        ensures
            r == self.has_subaccounts,
    {
        self.has_subaccounts
    }

    pub fn get_subaccount_id(&self, _who: u64) -> (r: Option<u64>)
        ensures
            r == Some(MOCK_SUBACCOUNT),
    {
        Some(MOCK_SUBACCOUNT)
    }

    pub fn is_subaccount(&self, _who: u64, _sub: u64) -> (r: bool)
        ensures
            r == !self.has_subaccounts,
    {
        !self.has_subaccounts
    }

    pub fn get_owner_id(&self, _sub: u64) -> (r: Option<(u64, u8)>)
        ensures
            r is None,
    {
        None
    }

    pub fn get_subaccounts_amount(&self, _who: u64) -> (r: usize)
        ensures
            r == 0,
    {
        0
    }

    /// Every account but the two bailsmen is a master account.
    pub fn is_master(&self, who: u64) -> (r: bool)
        ensures
            r == (who != ACCOUNT_BAILSMAN_1 && who != ACCOUNT_BAILSMAN_2),
    {
        who != ACCOUNT_BAILSMAN_1 && who != ACCOUNT_BAILSMAN_2
    }
}

/// Bailsman operations that all succeed.
pub struct BailsmanManagerMock;

impl BailsmanManagerMock {
    pub fn register_bailsman(&self, _who: u64) -> (r: Result<(), ()>)
        ensures
            r is Ok,
    {
        Ok(())
    }

    pub fn unregister_bailsman(&self, _who: u64) -> (r: Result<(), ()>)
        ensures
            r is Ok,
    {
        Ok(())
    }

    pub fn receive_position(&self, _who: u64, _is_deleting_position: bool) -> (r: Result<(), ()>)
        ensures
            r is Ok,
    {
        Ok(())
    }

    /// One distribution is redistributed.
    pub fn redistribute(&self, _who: u64) -> (r: Result<u32, ()>)
        ensures
            r == Ok::<u32, ()>(1),
    {
        Ok(1)
    }

    /// No bailsman needs unregistering.
    pub fn should_unreg_bailsman(&self, _who: u64) -> (r: Result<bool, ()>)
        ensures
            r == Ok::<bool, ()>(false),
    {
        Ok(false)
    }

    pub fn bailsmen_count(&self) -> (r: u32)
        ensures
            r == 0,
    {
        0
    }

    pub fn distribution_queue_len(&self) -> (r: u32)
        ensures
            r == 0,
    {
        0
    }
}

/// Update times that are not kept.
pub struct RateMock;

impl RateMock {
    pub fn set_last_update(&self, _who: u64) {
    }

    pub fn remove_last_update(&self, _who: u64) {
    }

    pub fn set_last_update_timestamp(&self, _who: u64, _timestamp_ms: u64) {
    }
}

/// The block author is always account 11.
pub struct Author11;

impl Author11 {
    pub fn find_author(&self) -> (r: Option<u64>)
        ensures
            r == Some(AUTHOR_11_ACCOUNT),
    {
        Some(AUTHOR_11_ACCOUNT)
    }
}

/// Balances double: only accounts 987 and 654 can be deleted, and exchanges
/// succeed.
pub struct EqCurrencyMock;

impl EqCurrencyMock {
    pub fn can_be_deleted(&self, who: u64) -> (r: Result<bool, ()>)
        ensures
            (who == 987 || who == 654) ==> r == Ok::<bool, ()>(true),
            !(who == 987 || who == 654) ==> r is Err,
    {
        if who == 987 || who == 654 {
            Ok(true)
        } else {
            Err(())
        }
    }

    pub fn exchange(&self, _from: u64, _to: u64, _amounts: (u128, u128)) -> (r: Result<(), ()>)
        ensures
            r is Ok,
    {
        Ok(())
    }

    pub fn unreserve(&self, _who: u64, _asset: u64, _amount: u128) -> (r: u128)
        ensures
            r == 0,
    {
        0
    }
}

/// Assets double: every asset but `dai` exists, with the set buyout priority.
pub struct AssetGetterMock {
    pub buyout_priority: u64,
}

impl AssetGetterMock {
    /// Sets the asset data (its buyout priority).
    pub fn set_asset_data(&mut self, buyout_priority: u64)
        ensures
            final(self).buyout_priority == buyout_priority,
    {
        self.buyout_priority = buyout_priority;
    }

    /// The buyout priority of a known asset.
    pub fn get_asset_data(&self, asset: u64) -> (r: Result<u64, ()>)
        ensures
            asset != DAI ==> r == Ok::<u64, ()>(self.buyout_priority),
            asset == DAI ==> r is Err,
    {
        if asset != DAI {
            Ok(self.buyout_priority)
        } else {
            Err(())
        }
    }

    pub fn asset_exists(&self, asset: u64) -> (r: bool)
        ensures
            r == (asset != DAI),
    {
        asset != DAI
    }

    pub fn get_assets(&self) -> (r: Vec<u64>)
        ensures
            r@ == seq![ETH],
    {
        vec![ETH]
    }

    pub fn priority(&self, _asset: u64) -> (r: Option<u64>)
        ensures
            r is None,
    {
        None
    }
}

/// Records the messages sent: `(destination length, message)`.
pub struct TestSendXcm {
    pub sent: Vec<(usize, u64)>,
}

impl TestSendXcm {
    /// Records the message; sending always succeeds.
    pub fn send_xcm(&mut self, dest_len: usize, msg: u64) -> (r: Result<(), ()>)
        ensures
            r is Ok,
            final(self).sent@ == old(self).sent@.push((dest_len, msg)),
    {
        self.sent.push((dest_len, msg));
        Ok(())
    }
}

/// Like `TestSendXcm`, but a destination of eight junctions is full.
pub struct TestSendXcmErrX8 {
    pub sent: Vec<(usize, u64)>,
}

impl TestSendXcmErrX8 {
    /// Records the message, unless its destination has eight junctions.
    pub fn send_xcm(&mut self, dest_len: usize, msg: u64) -> (r: Result<(), ()>)
        ensures
            dest_len == 8 ==> r is Err && final(self).sent@ == old(self).sent@,
            dest_len != 8 ==> r is Ok && final(self).sent@ == old(self).sent@.push((dest_len, msg)),
    {
        if dest_len == 8 {
            return Err(());
        }
        self.sent.push((dest_len, msg));
        Ok(())
    }
}

/// The relay chain runtime of the test configuration: its accounts are
/// 32-byte ids, as `StakingLedger::stash`, and its balances `u128` in relay
/// chain units.
#[derive(Debug, Clone, Copy)]
pub struct RelayRuntimeMock;

} // verus!
