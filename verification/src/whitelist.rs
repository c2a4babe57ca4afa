//! The whitelist: accounts kept in a sorted list, looked up by binary search.
use vstd::prelude::*;

verus! {

/// Errors of the whitelist.
#[derive(PartialEq, Eq, Structural, Debug, Clone, Copy)]
pub enum WhitelistError {
    AlreadyAdded,
    AlreadyRemoved,
}

/// The list is sorted.
pub open spec fn is_sorted(s: Seq<u64>) -> bool {
    forall|i: int, j: int| 0 <= i <= j < s.len() ==> s[i] <= s[j]
}

/// The whitelisted accounts, sorted.
pub struct Whitelist {
    pub accounts: Vec<u64>,
}

/// First index whose account is not below `x`: every account before it is
/// below `x`, every one from it on is not.
fn lower_bound(v: &Vec<u64>, x: u64) -> (r: usize)
    requires
        is_sorted(v@),
    ensures
        r <= v@.len(),
        forall|i: int| 0 <= i < r ==> v@[i] < x,
        forall|i: int| r <= i < v@.len() ==> v@[i] >= x,
{
    let mut lo: usize = 0;
    let mut hi: usize = v.len();
    while lo < hi
        invariant
            lo <= hi <= v@.len(),
            is_sorted(v@),
            forall|i: int| 0 <= i < lo ==> v@[i] < x,
            forall|i: int| hi <= i < v@.len() ==> v@[i] >= x,
        decreases hi - lo,
    {
        let mid = lo + (hi - lo) / 2;
        if v[mid] < x {
            lo = mid + 1;
        } else {
            hi = mid;
        }
    }
    lo
}

/// Inserts `x` at its place in a sorted list.
fn insert_sorted(v: &mut Vec<u64>, x: u64)
    requires
        is_sorted(old(v)@),
    ensures
        is_sorted(final(v)@),
        final(v)@.to_multiset() == old(v)@.to_multiset().insert(x),
{
    let p = lower_bound(v, x);
    proof {
        vstd::seq_lib::to_multiset_insert(v@, p as int, x);
    }
    v.insert(p, x);
}

/// The accounts in ascending order.
pub fn sorted(v: &Vec<u64>) -> (r: Vec<u64>)
    ensures
        is_sorted(r@),
        r@.to_multiset() == v@.to_multiset(),
{
    Whitelist::from_accounts(v).accounts
}

impl Whitelist {
    /// The whitelist of genesis: the given accounts, sorted.
    pub fn from_accounts(accounts: &Vec<u64>) -> (r: Self)
        ensures
            is_sorted(r.accounts@),
            r.accounts@.to_multiset() == accounts@.to_multiset(),
    {
        let mut out: Vec<u64> = Vec::new();
        let mut k: usize = 0;
        proof {
            assert(accounts@.take(0) =~= Seq::<u64>::empty());
            assert(out@ =~= Seq::<u64>::empty());
        }
        while k < accounts.len()
            invariant
                k <= accounts@.len(),
                is_sorted(out@),
                out@.to_multiset() == accounts@.take(k as int).to_multiset(),
            decreases accounts@.len() - k,
        {
            let x = accounts[k];
            insert_sorted(&mut out, x);
            proof {
                assert(accounts@.take(k + 1) =~= accounts@.take(k as int).push(x));
                vstd::seq_lib::to_multiset_build(accounts@.take(k as int), x);
            }
            k = k + 1;
        }
        proof {
            assert(accounts@.take(k as int) =~= accounts@);
        }
        Whitelist { accounts: out }
    }

    /// Whether `who` is whitelisted.
    pub fn in_whitelist(&self, who: u64) -> (r: bool)
        requires
            is_sorted(self.accounts@),
        ensures
            r == self.accounts@.contains(who),
    {
        let p = lower_bound(&self.accounts, who);
        if p < self.accounts.len() && self.accounts[p] == who {
            true
        } else {
            proof {
                if self.accounts@.contains(who) {
                    let i = choose|i: int| 0 <= i < self.accounts@.len() && self.accounts@[i] == who;
                    if i >= p {
                        assert(self.accounts@[p as int] <= self.accounts@[i]);
                    }
                }
            }
            false
        }
    }

    /// Adds `who`, unless it is whitelisted already.
    pub fn add_to_whitelist(&mut self, who: u64) -> (r: Result<(), WhitelistError>)
        requires
            is_sorted(old(self).accounts@),
        ensures
            is_sorted(final(self).accounts@),
            old(self).accounts@.contains(who) ==> r == Err::<(), WhitelistError>(
                WhitelistError::AlreadyAdded,
            ) && final(self).accounts@ == old(self).accounts@,
            !old(self).accounts@.contains(who) ==> r is Ok && final(self).accounts@.to_multiset()
                == old(self).accounts@.to_multiset().insert(who),
    {
        if self.in_whitelist(who) {
            return Err(WhitelistError::AlreadyAdded);
        }
        insert_sorted(&mut self.accounts, who);
        Ok(())
    }

    /// Removes `who`, unless it is not whitelisted.
    pub fn remove_from_whitelist(&mut self, who: u64) -> (r: Result<(), WhitelistError>)
        requires
            is_sorted(old(self).accounts@),
        ensures
            is_sorted(final(self).accounts@),
            !old(self).accounts@.contains(who) ==> r == Err::<(), WhitelistError>(
                WhitelistError::AlreadyRemoved,
            ) && final(self).accounts@ == old(self).accounts@,
            old(self).accounts@.contains(who) ==> r is Ok && final(self).accounts@.to_multiset()
                == old(self).accounts@.to_multiset().remove(who),
    {
        let p = lower_bound(&self.accounts, who);
        if p < self.accounts.len() && self.accounts[p] == who {
            proof {
                vstd::seq_lib::to_multiset_remove(self.accounts@, p as int);
            }
            self.accounts.remove(p);
            Ok(())
        } else {
            proof {
                if self.accounts@.contains(who) {
                    let i = choose|i: int| 0 <= i < self.accounts@.len() && self.accounts@[i] == who;
                    if i >= p {
                        assert(self.accounts@[p as int] <= self.accounts@[i]);
                    }
                }
            }
            Err(WhitelistError::AlreadyRemoved)
        }
    }

    /// The whitelisted accounts.
    pub fn accounts(&self) -> (r: Vec<u64>)
        ensures
            r@ == self.accounts@,
    {
        self.accounts.clone()
    }
}

/// After adding an account that was not whitelisted, it is; after removing
/// an account that was whitelisted once, it is not.
pub proof fn law_add_remove_membership(before: Seq<u64>, after_add: Seq<u64>, after_remove: Seq<
    u64,
>, who: u64)
    requires
        after_add.to_multiset() == before.to_multiset().insert(who),
        after_remove.to_multiset() == after_add.to_multiset().remove(who),
        !before.contains(who),
    ensures
        after_add.contains(who),
        !after_remove.contains(who),
        after_remove.to_multiset() == before.to_multiset(),
{
    broadcast use vstd::multiset::group_multiset_axioms;
    vstd::seq_lib::to_multiset_contains(before, who);
    vstd::seq_lib::to_multiset_contains(after_add, who);
    vstd::seq_lib::to_multiset_contains(after_remove, who);
    assert(after_remove.to_multiset() =~= before.to_multiset());
}

/// The flagged accounts among the first `n` entries, in order.
pub open spec fn flagged_prefix(old: Seq<(u64, bool)>, n: int) -> Seq<u64>
    decreases n,
{
    if n <= 0 {
        Seq::empty()
    } else {
        let p = flagged_prefix(old, n - 1);
        if old[n - 1].1 {
            p.push(old[n - 1].0)
        } else {
            p
        }
    }
}

/// The whitelist from its former storage, account to flag: the flagged
/// accounts, sorted.
pub fn migrate(old: &Vec<(u64, bool)>) -> (r: Whitelist)
    ensures
        is_sorted(r.accounts@),
        r.accounts@.to_multiset() == flagged_prefix(old@, old@.len() as int).to_multiset(),
{
    let mut flagged: Vec<u64> = Vec::new();
    let mut k: usize = 0;
    while k < old.len()
        invariant
            k <= old@.len(),
            flagged@ == flagged_prefix(old@, k as int),
        decreases old@.len() - k,
    {
        let (who, flag) = old[k];
        if flag {
            flagged.push(who);
        }
        k = k + 1;
    }
    Whitelist::from_accounts(&flagged)
}

} // verus!
