//! Signed balances: an unsigned amount that is either held (positive) or
//! owed (negative).
use vstd::prelude::*;

verus! {

/// A balance with a sign: what an account holds, or what it owes.
#[derive(PartialEq, Eq, Structural, Debug, Clone, Copy)]
pub enum SignedBalance {
    Positive(u128),
    Negative(u128),
}

/// A balance less an amount: a held balance that does not cover it turns
/// into a debt, a debt grows; `None` where the debt would exceed `u128`.
pub open spec fn sub_balance_spec(b: SignedBalance, amount: u128) -> Option<SignedBalance> {
    match b {
        SignedBalance::Positive(v) => if v >= amount {
            Some(SignedBalance::Positive((v - amount) as u128))
        } else {
            Some(SignedBalance::Negative((amount - v) as u128))
        },
        SignedBalance::Negative(v) => if v + amount <= u128::MAX {
            Some(SignedBalance::Negative((v + amount) as u128))
        } else {
            None
        },
    }
}

impl SignedBalance {
    /// The balance as an integer: negative for a debt.
    pub open spec fn value(self) -> int {
        match self {
            SignedBalance::Positive(v) => v as int,
            SignedBalance::Negative(v) => -(v as int),
        }
    }

    /// `true` for a held balance (zero included).
    pub fn is_positive(&self) -> (r: bool)
        ensures
            r == (*self is Positive),
    {
        match self {
            SignedBalance::Positive(_) => true,
            SignedBalance::Negative(_) => false,
        }
    }

    /// `true` for a debt.
    pub fn is_negative(&self) -> (r: bool)
        ensures
            r == (*self is Negative),
    {
        match self {
            SignedBalance::Positive(_) => false,
            SignedBalance::Negative(_) => true,
        }
    }

    /// The unsigned amount, whatever the sign.
    pub fn abs(&self) -> (r: u128)
        ensures
            r as int == (if self.value() < 0 {
                -self.value()
            } else {
                self.value()
            }),
    {
        match self {
            SignedBalance::Positive(v) => *v,
            SignedBalance::Negative(v) => *v,
        }
    }

    /// The balance less `amount`: a held balance that does not cover it turns
    /// into a debt; `None` where a debt would exceed `u128`.
    pub fn sub_balance(&self, amount: u128) -> (r: Option<SignedBalance>)
        ensures
            r == sub_balance_spec(*self, amount),
            r matches Some(b) ==> b.value() == self.value() - amount,
            r is None <==> self.value() - amount < -(u128::MAX as int),
    {
        match self {
            SignedBalance::Positive(v) => {
                if *v >= amount {
                    Some(SignedBalance::Positive(*v - amount))
                } else {
                    Some(SignedBalance::Negative(amount - *v))
                }
            },
            SignedBalance::Negative(v) => {
                match v.checked_add(amount) {
                    Some(s) => Some(SignedBalance::Negative(s)),
                    None => None,
                }
            },
        }
    }

    /// The sum of two balances; its sign is that of the sum, a zero sum is
    /// held.
    pub fn add_signed(&self, other: &SignedBalance) -> (r: SignedBalance)
        requires
            -(u128::MAX as int) <= self.value() + other.value() <= u128::MAX,
        ensures
            r.value() == self.value() + other.value(),
            r is Negative <==> self.value() + other.value() < 0,
    {
        match (self, other) {
            (SignedBalance::Positive(a), SignedBalance::Positive(b)) => SignedBalance::Positive(
                *a + *b,
            ),
            (SignedBalance::Negative(a), SignedBalance::Negative(b)) => {
                if *a == 0 && *b == 0 {
                    SignedBalance::Positive(0)
                } else {
                    SignedBalance::Negative(*a + *b)
                }
            },
            (SignedBalance::Positive(a), SignedBalance::Negative(b)) => {
                if *a >= *b {
                    SignedBalance::Positive(*a - *b)
                } else {
                    SignedBalance::Negative(*b - *a)
                }
            },
            (SignedBalance::Negative(a), SignedBalance::Positive(b)) => {
                if *b >= *a {
                    SignedBalance::Positive(*b - *a)
                } else {
                    SignedBalance::Negative(*a - *b)
                }
            },
        }
    }

    /// `self >= other` as balances: by value.
    pub fn ge(&self, other: &SignedBalance) -> (r: bool)
        ensures
            r == (self.value() >= other.value()),
    {
        match (self, other) {
            (SignedBalance::Positive(a), SignedBalance::Positive(b)) => *a >= *b,
            (SignedBalance::Negative(a), SignedBalance::Negative(b)) => *a <= *b,
            (SignedBalance::Positive(a), SignedBalance::Negative(b)) => true,
            (SignedBalance::Negative(a), SignedBalance::Positive(b)) => *a == 0 && *b == 0,
        }
    }
}

} // verus!
