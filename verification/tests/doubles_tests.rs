use eq_pallets::doubles::{
    clear_eq_buyout_args, get_eq_buyout_args, AssetGetterMock, Author11, BailsmanManagerMock,
    EqBuyoutMock, EqCurrencyMock, MarginCallManagerMock, RateMock, SubaccountsManagerMock,
    TestSendXcm, TestSendXcmErrX8, ACCOUNT_BAILSMAN_1, DAI, ETH, MOCK_SUBACCOUNT,
};

#[test]
fn buyout_double_records_and_clears() {
    let mut m = EqBuyoutMock::new();
    assert_eq!(m.eq_buyout(1, 762_499_999_998), Ok(()));
    assert_eq!(get_eq_buyout_args(&m), Some((1, 762_499_999_998)));
    clear_eq_buyout_args(&mut m);
    assert_eq!(get_eq_buyout_args(&m), None);
    assert_eq!(m.is_enough(ETH, 1, 2), Ok(true));
}

#[test]
fn margin_double() {
    let mut m = MarginCallManagerMock::new();
    assert_eq!(m.check_margin_with_change(1), Ok((true, true)));
    m.set_margin_state(false);
    assert_eq!(m.get_margin_state_mock(), Ok(false));
    assert_eq!(m.try_margincall(1), Ok(false));
}

#[test]
fn subaccount_double() {
    let s = SubaccountsManagerMock { has_subaccounts: true };
    assert_eq!(s.create_subaccount_inner(1), Ok(MOCK_SUBACCOUNT));
    assert_eq!(s.delete_subaccount_inner(1), Ok(MOCK_SUBACCOUNT));
    assert!(s.has_subaccount(1));
    assert!(!s.is_subaccount(1, 2));
    assert_eq!(s.get_subaccount_id(1), Some(MOCK_SUBACCOUNT));
    assert_eq!(s.get_owner_id(1), None);
    assert_eq!(s.get_subaccounts_amount(1), 0);
    assert!(!s.is_master(ACCOUNT_BAILSMAN_1));
    assert!(s.is_master(1));
}

#[test]
fn other_doubles() {
    let b = BailsmanManagerMock;
    assert_eq!(b.redistribute(1), Ok(1));
    assert_eq!(b.should_unreg_bailsman(1), Ok(false));
    assert_eq!(b.register_bailsman(1), Ok(()));
    assert_eq!(b.unregister_bailsman(1), Ok(()));
    assert_eq!(b.receive_position(1, false), Ok(()));
    assert_eq!(b.bailsmen_count(), 0);
    assert_eq!(b.distribution_queue_len(), 0);
    assert_eq!(Author11.find_author(), Some(11));
    let r = RateMock;
    r.set_last_update(1);
    r.remove_last_update(1);
    r.set_last_update_timestamp(1, 2);
    let c = EqCurrencyMock;
    assert_eq!(c.can_be_deleted(987), Ok(true));
    assert!(c.can_be_deleted(1).is_err());
    assert_eq!(c.exchange(1, 2, (3, 4)), Ok(()));
    assert_eq!(c.unreserve(1, ETH, 5), 0);
    let mut a = AssetGetterMock { buyout_priority: 1 };
    a.set_asset_data(4);
    assert_eq!(a.get_asset_data(ETH), Ok(4));
    assert!(a.get_asset_data(DAI).is_err());
    assert!(a.asset_exists(ETH) && !a.asset_exists(DAI));
    assert_eq!(a.get_assets(), vec![ETH]);
    assert_eq!(a.priority(ETH), None);
}

#[test]
fn xcm_doubles() {
    let mut s = TestSendXcm { sent: vec![] };
    assert_eq!(s.send_xcm(8, 1), Ok(()));
    assert_eq!(s.sent, vec![(8, 1)]);
    let mut e = TestSendXcmErrX8 { sent: vec![] };
    assert!(e.send_xcm(8, 1).is_err());
    assert_eq!(e.send_xcm(1, 2), Ok(()));
    assert_eq!(e.sent, vec![(1, 2)]);
}
