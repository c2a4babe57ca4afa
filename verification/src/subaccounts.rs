//! Subaccounts: each master account may own one subaccount of each type
//! (bailsman, borrower, trader); the registry maps masters to their
//! subaccounts and subaccounts to their owner.
use crate::balance::SignedBalance;
use std::collections::HashMap;
use vstd::prelude::*;

verus! {

broadcast use vstd::std_specs::hash::group_hash_axioms;

/// The type of a subaccount.
#[derive(PartialEq, Eq, Structural, Debug, Clone, Copy)]
pub enum SubAccType {
    Bailsman,
    Borrower,
    Trader,
}

/// Errors of the subaccounts.
#[derive(PartialEq, Eq, Structural, Debug, Clone, Copy)]
pub enum SubaccountsError {
    AlreadyHasSubaccount,
    NoSubaccountOfThisType,
    AccountInWhiteList,
    TransfersAreDisabled,
    Debt,
    EntropyError,
    AccountIsNotMaster,
}

/// The subaccounts of one master, one slot per type.
#[derive(PartialEq, Eq, Structural, Debug, Clone, Copy)]
pub struct SubaccountSlots {
    pub bailsman: Option<u64>,
    pub borrower: Option<u64>,
    pub trader: Option<u64>,
}

/// The slot of a type.
pub open spec fn slot(s: SubaccountSlots, t: SubAccType) -> Option<u64> {
    match t {
        SubAccType::Bailsman => s.bailsman,
        SubAccType::Borrower => s.borrower,
        SubAccType::Trader => s.trader,
    }
}

/// The slots with the slot of a type replaced.
pub open spec fn with_slot(s: SubaccountSlots, t: SubAccType, v: Option<u64>) -> SubaccountSlots {
    match t {
        SubAccType::Bailsman => SubaccountSlots { bailsman: v, ..s },
        SubAccType::Borrower => SubaccountSlots { borrower: v, ..s },
        SubAccType::Trader => SubaccountSlots { trader: v, ..s },
    }
}

pub open spec fn empty_slots() -> SubaccountSlots {
    SubaccountSlots { bailsman: None, borrower: None, trader: None }
}

/// The slots of a master in the registry's map.
pub open spec fn slots_of(m: Map<u64, SubaccountSlots>, who: u64) -> SubaccountSlots {
    if m.contains_key(who) {
        m[who]
    } else {
        empty_slots()
    }
}

/// The subaccount of type `t` of `who`.
pub open spec fn sub_of(m: Map<u64, SubaccountSlots>, who: u64, t: SubAccType) -> Option<u64> {
    slot(slots_of(m, who), t)
}

/// The registry of subaccounts.
pub struct Subaccounts {
    /// Master account to its subaccounts.
    pub subaccount: HashMap<u64, SubaccountSlots>,
    /// Subaccount to its master and type.
    pub owner: HashMap<u64, (u64, SubAccType)>,
}

fn slot_exec(s: &SubaccountSlots, t: SubAccType) -> (r: Option<u64>)
    ensures
        r == slot(*s, t),
{
    match t {
        SubAccType::Bailsman => s.bailsman,
        SubAccType::Borrower => s.borrower,
        SubAccType::Trader => s.trader,
    }
}

fn with_slot_exec(s: SubaccountSlots, t: SubAccType, v: Option<u64>) -> (r: SubaccountSlots)
    ensures
        r == with_slot(s, t, v),
{
    match t {
        SubAccType::Bailsman => SubaccountSlots { bailsman: v, ..s },
        SubAccType::Borrower => SubaccountSlots { borrower: v, ..s },
        SubAccType::Trader => SubaccountSlots { trader: v, ..s },
    }
}

impl Subaccounts {
    /// An empty registry.
    pub fn new() -> (r: Self)
        ensures
            r.subaccount@ == Map::<u64, SubaccountSlots>::empty(),
            r.owner@ == Map::<u64, (u64, SubAccType)>::empty(),
    {
        Subaccounts { subaccount: HashMap::new(), owner: HashMap::new() }
    }

    fn slots(&self, who: u64) -> (r: SubaccountSlots)
        ensures
            r == slots_of(self.subaccount@, who),
    {
        match self.subaccount.get(&who) {
            Some(s) => *s,
            None => SubaccountSlots { bailsman: None, borrower: None, trader: None },
        }
    }

    /// The subaccount of type `t` of `who`.
    pub fn get_subaccount_id(&self, who: u64, t: SubAccType) -> (r: Option<u64>)
        ensures
            r == sub_of(self.subaccount@, who, t),
    {
        let s = self.slots(who);
        slot_exec(&s, t)
    }

    /// Whether `who` has a subaccount of type `t`.
    pub fn has_subaccount(&self, who: u64, t: SubAccType) -> (r: bool)
        ensures
            r == (sub_of(self.subaccount@, who, t) is Some),
    {
        self.get_subaccount_id(who, t).is_some()
    }

    /// The master and type of a subaccount.
    pub fn get_owner_id(&self, sub: u64) -> (r: Option<(u64, SubAccType)>)
        ensures
            r == (if self.owner@.contains_key(sub) {
                Some(self.owner@[sub])
            } else {
                None
            }),
    {
        match self.owner.get(&sub) {
            Some(o) => Some(*o),
            None => None,
        }
    }

    /// Whether `sub` is a subaccount of `who`.
    pub fn is_subaccount(&self, who: u64, sub: u64) -> (r: bool)
        ensures
            r == (self.owner@.contains_key(sub) && self.owner@[sub].0 == who),
    {
        match self.get_owner_id(sub) {
            Some((main, _)) => main == who,
            None => false,
        }
    }

    /// A master account is one that is no subaccount.
    pub fn is_master(&self, who: u64) -> (r: bool)
        ensures
            r == !self.owner@.contains_key(who),
    {
        self.get_owner_id(who).is_none()
    }

    /// The number of subaccounts of `who`.
    pub fn get_subaccounts_amount(&self, who: u64) -> (r: usize)
        ensures
            r == (if sub_of(self.subaccount@, who, SubAccType::Bailsman) is Some {
                1int
            } else {
                0
            }) + (if sub_of(self.subaccount@, who, SubAccType::Borrower) is Some {
                1int
            } else {
                0
            }) + (if sub_of(self.subaccount@, who, SubAccType::Trader) is Some {
                1int
            } else {
                0
            }),
    {
        let s = self.slots(who);
        let mut n: usize = 0;
        if s.bailsman.is_some() {
            n = n + 1;
        }
        if s.borrower.is_some() {
            n = n + 1;
        }
        if s.trader.is_some() {
            n = n + 1;
        }
        n
    }

    /// The subaccount of type `t` of `who`, or the error that it has none.
    pub fn try_get_subaccount(&self, who: u64, t: SubAccType) -> (r: Result<u64, SubaccountsError>)
        ensures
            r == (match sub_of(self.subaccount@, who, t) {
                Some(s) => Ok::<u64, SubaccountsError>(s),
                None => Err(SubaccountsError::NoSubaccountOfThisType),
            }),
    {
        match self.get_subaccount_id(who, t) {
            Some(s) => Ok(s),
            None => Err(SubaccountsError::NoSubaccountOfThisType),
        }
    }

    /// Registers a subaccount of type `t` for `who`: not for a whitelisted
    /// account, nor where one exists. `generated` is the id derived for it
    /// (or `None` where no id could be derived).
    pub fn create_subaccount_inner(
        &mut self,
        who: u64,
        t: SubAccType,
        whitelisted: bool,
        generated: Option<u64>,
    ) -> (r: Result<u64, SubaccountsError>)
        ensures
            whitelisted ==> r == Err::<u64, SubaccountsError>(SubaccountsError::AccountInWhiteList),
            !whitelisted && sub_of(old(self).subaccount@, who, t) is Some ==> r == Err::<
                u64,
                SubaccountsError,
            >(SubaccountsError::AlreadyHasSubaccount),
            !whitelisted && sub_of(old(self).subaccount@, who, t) is None && generated is None ==> r
                == Err::<u64, SubaccountsError>(SubaccountsError::EntropyError),
            !whitelisted && sub_of(old(self).subaccount@, who, t) is None && generated is Some ==> r
                is Ok,
            r is Err ==> final(self).subaccount@ == old(self).subaccount@ && final(self).owner@ == old(self).owner@,
            r matches Ok(id) ==> {
                &&& !whitelisted && sub_of(old(self).subaccount@, who, t) is None && generated == Some(
                    id,
                )
                &&& final(self).subaccount@ == old(self).subaccount@.insert(
                    who,
                    with_slot(slots_of(old(self).subaccount@, who), t, Some(id)),
                )
                &&& final(self).owner@ == old(self).owner@.insert(id, (who, t))
            },
    {
        if whitelisted {
            return Err(SubaccountsError::AccountInWhiteList);
        }
        if self.has_subaccount(who, t) {
            return Err(SubaccountsError::AlreadyHasSubaccount);
        }
        let id = match generated {
            Some(id) => id,
            None => {
                return Err(SubaccountsError::EntropyError);
            },
        };
        self.owner.insert(id, (who, t));
        let s = self.slots(who);
        self.subaccount.insert(who, with_slot_exec(s, t, Some(id)));
        Ok(id)
    }

    /// Removes the subaccount of type `t` of `who`, returning it.
    pub fn delete_subaccount_inner(&mut self, who: u64, t: SubAccType) -> (r: Result<
        u64,
        SubaccountsError,
    >)
        ensures
            sub_of(old(self).subaccount@, who, t) is None ==> r == Err::<u64, SubaccountsError>(
                SubaccountsError::NoSubaccountOfThisType,
            ) && final(self).subaccount@ == old(self).subaccount@ && final(self).owner@ == old(self).owner@,
            sub_of(old(self).subaccount@, who, t) matches Some(id) ==> r == Ok::<u64, SubaccountsError>(
                id,
            ) && final(self).subaccount@ == old(self).subaccount@.insert(
                who,
                with_slot(slots_of(old(self).subaccount@, who), t, None),
            ) && final(self).owner@ == old(self).owner@.remove(id),
    {
        let id = match self.get_subaccount_id(who, t) {
            Some(id) => id,
            None => {
                return Err(SubaccountsError::NoSubaccountOfThisType);
            },
        };
        self.owner.remove(&id);
        let s = self.slots(who);
        self.subaccount.insert(who, with_slot_exec(s, t, None));
        Ok(id)
    }
}

/// Creating a subaccount and then deleting it leaves every master's
/// subaccounts as they were, and the registry has the new subaccount in
/// between.
pub proof fn law_create_then_delete(
    m: Map<u64, SubaccountSlots>,
    who: u64,
    t: SubAccType,
    id: u64,
    w: u64,
    t2: SubAccType,
)
    requires
        sub_of(m, who, t) is None,
    ensures
        ({
            let created = m.insert(who, with_slot(slots_of(m, who), t, Some(id)));
            let deleted = created.insert(who, with_slot(slots_of(created, who), t, None));
            &&& sub_of(created, who, t) == Some(id)
            &&& (w != who || t2 != t) ==> sub_of(created, w, t2) == sub_of(m, w, t2)
            &&& sub_of(deleted, w, t2) == sub_of(m, w, t2)
        }),
{
}

/// Transfers between accounts must be enabled.
pub fn ensure_transfers_enabled(enabled: bool) -> (r: Result<(), SubaccountsError>)
    ensures
        enabled ==> r is Ok,
        !enabled ==> r == Err::<(), SubaccountsError>(SubaccountsError::TransfersAreDisabled),
{
    if enabled {
        Ok(())
    } else {
        Err(SubaccountsError::TransfersAreDisabled)
    }
}

/// What a transfer to a subaccount does before the transfer itself.
#[derive(PartialEq, Eq, Structural, Debug, Clone, Copy)]
pub struct ToSubaccount {
    /// The subaccount.
    pub subaccount: u64,
    /// Whether it was created by this transfer.
    pub created: bool,
    /// Whether its user group is to be set now (a new borrower or trader).
    pub set_usergroup: bool,
}

/// Prepares a transfer from `who` to its subaccount of type `t`, creating
/// the subaccount where it has none.
pub fn transfer_to_subaccount(
    reg: &mut Subaccounts,
    who: u64,
    t: SubAccType,
    transfers_enabled: bool,
    whitelisted: bool,
    generated: Option<u64>,
) -> (r: Result<ToSubaccount, SubaccountsError>)
    ensures
        !transfers_enabled ==> r == Err::<ToSubaccount, SubaccountsError>(
            SubaccountsError::TransfersAreDisabled,
        ) && final(reg).subaccount@ == old(reg).subaccount@ && final(reg).owner@ == old(reg).owner@,
        transfers_enabled ==> (sub_of(old(reg).subaccount@, who, t) matches Some(s) ==> r == Ok::<
            ToSubaccount,
            SubaccountsError,
        >(ToSubaccount { subaccount: s, created: false, set_usergroup: false }) && final(reg).subaccount@ == old(reg).subaccount@ && final(reg).owner@ == old(reg).owner@),
        transfers_enabled && sub_of(old(reg).subaccount@, who, t) is None ==> {
            if whitelisted {
                r == Err::<ToSubaccount, SubaccountsError>(SubaccountsError::AccountInWhiteList)
            } else {
                match generated {
                    None => r == Err::<ToSubaccount, SubaccountsError>(
                        SubaccountsError::EntropyError,
                    ),
                    Some(id) => r == Ok::<ToSubaccount, SubaccountsError>(
                        ToSubaccount {
                            subaccount: id,
                            created: true,
                            set_usergroup: t != SubAccType::Bailsman,
                        },
                    ) && final(reg).owner@ == old(reg).owner@.insert(id, (who, t)) && final(reg).subaccount@ == old(reg).subaccount@.insert(
                        who,
                        with_slot(slots_of(old(reg).subaccount@, who), t, Some(id)),
                    ),
                }
            }
        },
        r is Err ==> final(reg).subaccount@ == old(reg).subaccount@ && final(reg).owner@ == old(reg).owner@,
{
    if !transfers_enabled {
        return Err(SubaccountsError::TransfersAreDisabled);
    }
    match reg.get_subaccount_id(who, t) {
        Some(s) => Ok(ToSubaccount { subaccount: s, created: false, set_usergroup: false }),
        None => {
            match reg.create_subaccount_inner(who, t, whitelisted, generated) {
                Ok(id) => Ok(
                    ToSubaccount {
                        subaccount: id,
                        created: true,
                        set_usergroup: t != SubAccType::Bailsman,
                    },
                ),
                Err(e) => Err(e),
            }
        },
    }
}

/// After a transfer to a bailsman subaccount that is not yet a bailsman,
/// the subaccount is registered as one.
pub fn register_bailsman_after_transfer(t: SubAccType, in_bailsmen: bool) -> (r: bool)
    ensures
        r == (t == SubAccType::Bailsman && !in_bailsmen),
{
    t == SubAccType::Bailsman && !in_bailsmen
}

/// What a transfer from a subaccount does around the transfer itself: the
/// subaccount, whether it is an active bailsman (redistributed before, and
/// unregistered after where the transfer leaves it below the bailsman
/// requirements).
#[derive(PartialEq, Eq, Structural, Debug, Clone, Copy)]
pub struct FromSubaccount {
    pub subaccount: u64,
    pub active_bailsman: bool,
}

/// Prepares a transfer from the subaccount of type `t` of `who` to
/// `destination`; `destination_checked` says whether the destination must
/// be a master account (a transfer to another account) or is `who` itself.
pub fn transfer_from_subaccount(
    reg: &Subaccounts,
    who: u64,
    t: SubAccType,
    destination: u64,
    destination_checked: bool,
    transfers_enabled: bool,
    subaccount_in_bailsmen: bool,
) -> (r: Result<FromSubaccount, SubaccountsError>)
    ensures
        r == (if !transfers_enabled {
            Err::<FromSubaccount, SubaccountsError>(SubaccountsError::TransfersAreDisabled)
        } else if destination_checked && reg.owner@.contains_key(destination) {
            Err(SubaccountsError::AccountIsNotMaster)
        } else {
            match sub_of(reg.subaccount@, who, t) {
                None => Err(SubaccountsError::NoSubaccountOfThisType),
                Some(s) => Ok(
                    FromSubaccount {
                        subaccount: s,
                        active_bailsman: t == SubAccType::Bailsman && subaccount_in_bailsmen,
                    },
                ),
            }
        }),
{
    ensure_transfers_enabled(transfers_enabled)?;
    if destination_checked && !reg.is_master(destination) {
        return Err(SubaccountsError::AccountIsNotMaster);
    }
    let s = reg.try_get_subaccount(who, t)?;
    Ok(FromSubaccount { subaccount: s, active_bailsman: t == SubAccType::Bailsman && subaccount_in_bailsmen })
}

/// Whether the bailsman is to be unregistered after a transfer from it.
pub fn unregister_after_transfer(plan: &FromSubaccount, should_unreg: bool) -> (r: bool)
    ensures
        r == (plan.active_bailsman && should_unreg),
{
    plan.active_bailsman && should_unreg
}

/// The weight formula charged for a transfer with a subaccount.
#[derive(PartialEq, Eq, Structural, Debug, Clone, Copy)]
pub enum TransferWeight {
    /// The larger of a transfer to a bailsman with redistribution (over the
    /// given queue length) and a bailsman registration.
    BailsmanMaybeRegister(u32),
    /// A transfer to a bailsman with redistribution over the given count.
    BailsmanRedistribute(u32),
    /// A bailsman registration.
    BailsmanRegister,
    /// The larger of a plain transfer and a borrower registration.
    SubaccountMaybeRegister,
    /// A borrower registration.
    BorrowerRegister,
    /// A plain transfer.
    Subaccount,
}

/// The weight charged up front for a transfer.
pub fn transfer_max_weight(t: SubAccType, maybe_creating: bool, queue_len: u32) -> (r: TransferWeight)
    ensures
        r == (match t {
            SubAccType::Bailsman => if maybe_creating {
                TransferWeight::BailsmanMaybeRegister(queue_len)
            } else {
                TransferWeight::BailsmanRedistribute(queue_len)
            },
            _ => if maybe_creating {
                TransferWeight::SubaccountMaybeRegister
            } else {
                TransferWeight::Subaccount
            },
        }),
{
    match t {
        SubAccType::Bailsman => {
            if maybe_creating {
                TransferWeight::BailsmanMaybeRegister(queue_len)
            } else {
                TransferWeight::BailsmanRedistribute(queue_len)
            }
        },
        _ => {
            if maybe_creating {
                TransferWeight::SubaccountMaybeRegister
            } else {
                TransferWeight::Subaccount
            }
        },
    }
}

/// The weight actually used by a transfer.
pub fn transfer_post_weight(t: SubAccType, redistribute_amount: u32, created: bool) -> (r:
    TransferWeight)
    ensures
        r == (match t {
            SubAccType::Bailsman => if created {
                TransferWeight::BailsmanRegister
            } else {
                TransferWeight::BailsmanRedistribute(redistribute_amount)
            },
            _ => if created {
                TransferWeight::BorrowerRegister
            } else {
                TransferWeight::Subaccount
            },
        }),
{
    match t {
        SubAccType::Bailsman => {
            if created {
                TransferWeight::BailsmanRegister
            } else {
                TransferWeight::BailsmanRedistribute(redistribute_amount)
            }
        },
        _ => {
            if created {
                TransferWeight::BorrowerRegister
            } else {
                TransferWeight::Subaccount
            }
        },
    }
}

/// The balance changes fit: each new balance stays within `u128` either way.
pub open spec fn changes_fit(balances: Seq<SignedBalance>, changes: Seq<(u64, SignedBalance)>) -> bool {
    forall|k: int|
        0 <= k < changes.len() ==> -(u128::MAX as int) <= #[trigger] balances[k].value()
            + changes[k].1.value() <= u128::MAX
}

/// Whether an account may take the balance changes: a borrower may; any
/// other account may not go into debt in any asset. `balances` holds the
/// account's current balance of the asset of each change.
pub fn can_change_balance_impl(
    is_borrower: bool,
    changes: &Vec<(u64, SignedBalance)>,
    balances: &Vec<SignedBalance>,
) -> (r: Result<(), SubaccountsError>)
    requires
        balances@.len() == changes@.len(),
        changes_fit(balances@, changes@),
    ensures
        r is Ok <==> (is_borrower || forall|k: int|
            0 <= k < changes@.len() ==> #[trigger] balances@[k].value() + changes@[k].1.value()
                >= 0),
        r is Err ==> r == Err::<(), SubaccountsError>(SubaccountsError::Debt),
{
    if is_borrower {
        return Ok(());
    }
    let mut k: usize = 0;
    while k < changes.len()
        invariant
            k <= changes@.len(),
            !is_borrower,
            balances@.len() == changes@.len(),
            changes_fit(balances@, changes@),
            forall|m: int|
                0 <= m < k ==> #[trigger] balances@[m].value() + changes@[m].1.value() >= 0,
        decreases changes@.len() - k,
    {
        let nb = balances[k].add_signed(&changes[k].1);
        if nb.is_negative() {
            assert(balances@[k as int].value() + changes@[k as int].1.value() < 0);
            return Err(SubaccountsError::Debt);
        }
        k = k + 1;
    }
    Ok(())
}

/// What a genesis entry `(master, type, subaccount)` does beyond the
/// registry: where the master had no subaccount of the type, the
/// subaccount is registered and, but for a bailsman, put in its user group
/// at once; a bailsman subaccount is put in its group after its balances.
#[derive(PartialEq, Eq, Structural, Debug, Clone, Copy)]
pub struct GenesisEntry {
    pub registered: bool,
    pub usergroup_now: bool,
    pub usergroup_after_balances: bool,
}

impl Subaccounts {
    /// Registers a subaccount of genesis, unless the master already has one
    /// of the type.
    pub fn genesis_subaccount(&mut self, master: u64, t: SubAccType, sub: u64) -> (r: GenesisEntry)
        ensures
            sub_of(old(self).subaccount@, master, t) is Some ==> final(self).subaccount@ == old(
                self).subaccount@ && final(self).owner@ == old(self).owner@ && !r.registered
                && !r.usergroup_now,
            sub_of(old(self).subaccount@, master, t) is None ==> final(self).subaccount@ == old(
                self).subaccount@.insert(
                master,
                with_slot(slots_of(old(self).subaccount@, master), t, Some(sub)),
            ) && final(self).owner@ == old(self).owner@.insert(sub, (master, t)) && r.registered
                && r.usergroup_now == (t != SubAccType::Bailsman),
            r.usergroup_after_balances == (t == SubAccType::Bailsman),
    {
        if self.has_subaccount(master, t) {
            return GenesisEntry {
                registered: false,
                usergroup_now: false,
                usergroup_after_balances: t == SubAccType::Bailsman,
            };
        }
        self.owner.insert(sub, (master, t));
        let s = self.slots(master);
        self.subaccount.insert(master, with_slot_exec(s, t, Some(sub)));
        GenesisEntry {
            registered: true,
            usergroup_now: t != SubAccType::Bailsman,
            usergroup_after_balances: t == SubAccType::Bailsman,
        }
    }
}

/// A genesis balance of a subaccount: a deposit of a non-negative amount, a
/// withdrawal of the magnitude of a negative one.
pub fn genesis_balance_change(amount: i128) -> (r: SignedBalance)
    requires
        amount != i128::MIN,
    ensures
        r.value() == amount,
        amount >= 0 ==> r is Positive,
        amount < 0 ==> r is Negative,
{
    if amount >= 0 {
        SignedBalance::Positive(amount as u128)
    } else {
        SignedBalance::Negative((-amount) as u128)
    }
}

/// How a subaccount joins its user group: a borrower or trader is marked a
/// borrower; a bailsman is registered with the bailsmen.
#[derive(PartialEq, Eq, Structural, Debug, Clone, Copy)]
pub enum UsergroupAction {
    SetBorrower,
    RegisterBailsman,
    UnsetBorrower,
    UnregisterBailsman,
}

/// How a subaccount of type `t` joins its user group.
pub fn try_set_usergroup(t: SubAccType) -> (r: UsergroupAction)
    ensures
        r == (if t == SubAccType::Bailsman {
            UsergroupAction::RegisterBailsman
        } else {
            UsergroupAction::SetBorrower
        }),
{
    match t {
        SubAccType::Bailsman => UsergroupAction::RegisterBailsman,
        _ => UsergroupAction::SetBorrower,
    }
}

/// How a deleted subaccount leaves its user group: a borrower or trader is
/// unmarked; a bailsman is unregistered where it is one.
pub fn usergroup_on_delete(t: SubAccType, in_bailsmen: bool) -> (r: Option<UsergroupAction>)
    ensures
        r == (if t == SubAccType::Bailsman {
            if in_bailsmen {
                Some(UsergroupAction::UnregisterBailsman)
            } else {
                None
            }
        } else {
            Some(UsergroupAction::UnsetBorrower)
        }),
{
    match t {
        SubAccType::Bailsman => {
            if in_bailsmen {
                Some(UsergroupAction::UnregisterBailsman)
            } else {
                None
            }
        },
        _ => Some(UsergroupAction::UnsetBorrower),
    }
}

} // verus!
