use eq_pallets::vesting::{
    genesis_deposit, LockUpdate, VestingError, VestingEvent, VestingInfo, Vestings,
};

const FX: u128 = 1_000_000_000_000_000_000;

#[test]
fn vest_no_vesting() {
    let mut v = Vestings::new();
    assert_eq!(v.update_lock(1, 5), Err(VestingError::NotVesting));
    assert!(!v.has_vesting_schedule(1));
    assert_eq!(v.vesting_balance(1, 5), None);
}

#[test]
fn add_vesting_schedule() {
    let mut v = Vestings::new();
    let who = 10;
    assert_eq!(v.add_vesting_schedule(who, 10, 1, 10), Ok(()));
    assert_eq!(
        v.vesting.get(&who),
        Some(&VestingInfo { locked: 10, per_block: 1, starting_block: 10 })
    );
    assert_eq!(v.vesting_balance(who, 10), Some(10));
    assert_eq!(
        v.add_vesting_schedule(who, 10, 1, 10),
        Err(VestingError::ExistingVestingSchedule)
    );
}

#[test]
fn add_zero_vesting_schedule() {
    let mut v = Vestings::new();
    assert_eq!(v.add_vesting_schedule(1, 0, 1, 10), Ok(()));
    assert!(!v.has_vesting_schedule(1));
}

#[test]
fn forced_vested_transfer() {
    let mut v = Vestings::new();
    let schedule = VestingInfo { locked: 10 * FX, per_block: FX, starting_block: 10 };
    assert_eq!(v.check_vested_transfer(2, &schedule, true, 1_000_000_000), Ok(()));
    assert_eq!(
        v.add_vesting_schedule(2, schedule.locked, schedule.per_block, schedule.starting_block),
        Ok(())
    );
    // the first update at block 1 vests nothing
    assert_eq!(v.update_lock(2, 1).unwrap().to_vest, 0);
    // at block 11 one block has vested
    let update = v.update_lock(2, 11).unwrap();
    assert_eq!(
        update,
        LockUpdate { to_vest: FX, completed: false, unlocked: FX, locked_now: 9 * FX }
    );
    assert_eq!(v.vested.get(&2), Some(&FX));
    assert_eq!(v.vesting_balance(2, 11), Some(9 * FX));
    assert_eq!(
        v.check_vested_transfer(2, &schedule, true, 1_000_000_000),
        Err(VestingError::ExistingVestingSchedule)
    );
}

#[test]
fn forced_transfers_disabled() {
    let v = Vestings::new();
    let schedule = VestingInfo { locked: 10 * FX, per_block: FX, starting_block: 10 };
    assert_eq!(
        v.check_vested_transfer(2, &schedule, false, 1_000_000_000),
        Err(VestingError::TransfersAreDisabled)
    );
    assert_eq!(
        v.check_vested_transfer(2, &VestingInfo { per_block: 0, ..schedule }, true, 1),
        Err(VestingError::AmountLow)
    );
    assert_eq!(
        v.check_vested_transfer(2, &schedule, true, 11 * FX),
        Err(VestingError::AmountLow)
    );
}

#[test]
fn schedule_completes_and_is_removed() {
    let mut v = Vestings::new();
    v.add_vesting_schedule(3, 100, 30, 0).unwrap();
    assert_eq!(v.update_lock(3, 2).unwrap().to_vest, 60);
    let last = v.update_lock(3, 4).unwrap();
    assert_eq!(last, LockUpdate { to_vest: 40, completed: true, unlocked: 100, locked_now: 0 });
    assert!(!v.has_vesting_schedule(3));
    assert_eq!(v.vested.get(&3), None);
}

#[test]
fn locked_and_unlocked_make_up_the_schedule() {
    let info = VestingInfo { locked: 100, per_block: 7, starting_block: 5 };
    for n in [0u64, 5, 6, 10, 19, 20, 1_000] {
        assert_eq!(info.locked_at(n) + info.unlocked_at(n), 100);
    }
    assert_eq!(info.unlocked_at(6), 7);
    assert_eq!(info.locked_at(6), 93);
    let huge = VestingInfo { locked: 100, per_block: u128::MAX, starting_block: 0 };
    assert_eq!(huge.unlocked_at(2), 100);
    assert_eq!(huge.locked_at(2), 0);
}

#[test]
fn update_vesting_schedule_spreads_the_total() {
    let mut v = Vestings::new();
    assert_eq!(v.update_vesting_schedule(1, 10, 5), Err(VestingError::NotVesting));
    v.add_vesting_schedule(1, 128, 6, 10).unwrap();
    assert_eq!(v.update_vesting_schedule(1, 32, 20), Ok(()));
    assert_eq!(
        v.vesting.get(&1),
        Some(&VestingInfo { locked: 160, per_block: 8, starting_block: 10 })
    );
    assert_eq!(v.update_vesting_schedule(1, 32, 0), Err(VestingError::DivisionByZero));
    assert_eq!(v.update_vesting_schedule(1, 0, 0), Ok(()));
}

#[test]
fn genesis_deposit_saturates() {
    let s = vec![
        VestingInfo { locked: 5, per_block: 1, starting_block: 0 },
        VestingInfo { locked: 7, per_block: 1, starting_block: 0 },
    ];
    assert_eq!(genesis_deposit(&s), 12);
    let big = vec![
        VestingInfo { locked: u128::MAX, per_block: 1, starting_block: 0 },
        VestingInfo { locked: 7, per_block: 1, starting_block: 0 },
    ];
    assert_eq!(genesis_deposit(&big), u128::MAX);
}

#[test]
fn vest_emits_an_event_on_every_update() {
    let mut v = Vestings::new();
    let who = 7;
    v.add_vesting_schedule(who, 100, 10, 10).unwrap();
    // nothing unlocked yet: the vesting is updated with all still locked
    let (u, e) = v.vest(who, 1).unwrap();
    assert_eq!(u.to_vest, 0);
    assert_eq!(e, VestingEvent::VestingUpdated(who, 100));
    // four blocks vested
    let (u, e) = v.vest_other(who, 14).unwrap();
    assert_eq!(u.to_vest, 40);
    assert_eq!(e, VestingEvent::VestingUpdated(who, 60));
    assert_eq!(v.vested.get(&who), Some(&40));
    // all vested: completed and removed
    let (u, e) = v.vest(who, 30).unwrap();
    assert_eq!(u.to_vest, 60);
    assert_eq!(e, VestingEvent::VestingCompleted(who));
    assert!(!v.has_vesting_schedule(who));
    assert_eq!(v.vest(who, 31), Err(VestingError::NotVesting));
}

#[test]
fn vesting_pays_at_most_the_locked_amount() {
    let mut v = Vestings::new();
    let who = 3;
    v.add_vesting_schedule(who, 95, 10, 0).unwrap();
    let mut paid = 0;
    for now in [3, 3, 5, 9, 9, 12, 40, 50] {
        match v.vest(who, now) {
            Ok((u, _)) => paid += u.to_vest,
            Err(e) => assert_eq!(e, VestingError::NotVesting),
        }
    }
    assert_eq!(paid, 95);
}
