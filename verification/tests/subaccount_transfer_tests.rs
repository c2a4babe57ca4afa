use eq_pallets::balance::SignedBalance;
use eq_pallets::subaccounts::{can_change_balance_impl, SubAccType, Subaccounts};

const ALL_SUBACC_TYPES: [SubAccType; 3] = [SubAccType::Bailsman, SubAccType::Borrower, SubAccType::Trader];

#[test]
fn transfer_from_subaccount() {
    let mut reg = Subaccounts::new();
    let main_acc: u64 = 55;
    let mut balance_inner: u128 = 88_005_553_535;
    let mut withdrawn: u128 = 34_206_911_777;
    for (i, t) in ALL_SUBACC_TYPES.iter().enumerate() {
        let sub = reg.create_subaccount_inner(main_acc, *t, false, Some(500 + i as u64)).unwrap();
        let plan = eq_pallets::subaccounts::transfer_from_subaccount(&reg, main_acc, *t, main_acc, false, true, true)
            .unwrap();
        assert_eq!(plan.subaccount, sub);
        assert_eq!(plan.active_bailsman, *t == SubAccType::Bailsman);
        // the subaccount keeps a positive balance after the transfer
        let balance = vec![SignedBalance::Positive(balance_inner)];
        let out = vec![(1u64, SignedBalance::Negative(withdrawn))];
        assert_eq!(can_change_balance_impl(false, &out, &balance), Ok(()));
        balance_inner *= 2;
        withdrawn *= 2;
    }
}
