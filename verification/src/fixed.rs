//! Fixed-point arithmetic.
//!
//! `FixedI128` (from `sp_arithmetic`) is carried by its inner `i128`, scaled by
//! `10^18`; its operations are delegated to `sp_arithmetic`. `EqFixedU128` is
//! the project's unsigned fixed-point number, carried by its inner `u128`
//! scaled by `10^9`; its operations are written here on top of
//! `sp_arithmetic`'s 256-bit `multiply_by_rational_with_rounding`.
use sp_arithmetic::helpers_128bit::multiply_by_rational_with_rounding;
use sp_arithmetic::traits::{CheckedDiv, CheckedMul};
use sp_arithmetic::{
    FixedI128, FixedI64, FixedPointNumber, PerThing, Percent, Permill, Rounding,
};
use vstd::prelude::*;

verus! {

/// Scale of `FixedI128`: `1.0` is represented by this inner value.
pub const FX_ONE: i128 = 1_000_000_000_000_000_000;

/// Scale of `EqFixedU128` and of `FixedI64`: `1.0` is represented by this inner value.
pub const EQ_ONE: u128 = 1_000_000_000;

pub open spec fn fx_one() -> int {
    1_000_000_000_000_000_000
}

pub open spec fn eq_one() -> int {
    1_000_000_000
}

pub open spec fn abs(x: int) -> int {
    if x < 0 {
        -x
    } else {
        x
    }
}

/// Integer quotient rounded toward zero (`d != 0`).
pub open spec fn tdiv(n: int, d: int) -> int {
    if (n < 0) == (d < 0) {
        abs(n) / abs(d)
    } else {
        -(abs(n) / abs(d))
    }
}

pub open spec fn fits_i128(x: int) -> bool {
    i128::MIN <= x <= i128::MAX
}

pub open spec fn fits_i64(x: int) -> bool {
    i64::MIN <= x <= i64::MAX
}

pub open spec fn fits_u128(x: int) -> bool {
    0 <= x <= u128::MAX
}

/// Inner value of the `FixedI128` product `a * b`, rounded toward zero.
pub open spec fn fmul(a: int, b: int) -> int {
    tdiv(a * b, fx_one())
}

/// Inner value of the `FixedI128` quotient `a / b`, rounded toward zero.
pub open spec fn fdiv(a: int, b: int) -> int {
    tdiv(a * fx_one(), b)
}

/// `FixedI128` product, `None` where `*` would overflow.
pub open spec fn fmul_opt(a: int, b: int) -> Option<int> {
    if fits_i128(fmul(a, b)) {
        Some(fmul(a, b))
    } else {
        None
    }
}

/// `FixedI128` quotient, `None` where `checked_div` gives nothing.
pub open spec fn fdiv_opt(a: int, b: int) -> Option<int> {
    if b != 0 && fits_i128(fdiv(a, b)) {
        Some(fdiv(a, b))
    } else {
        None
    }
}

/// `FixedI128` sum, `None` where `+` would overflow.
pub open spec fn fadd_opt(a: int, b: int) -> Option<int> {
    if fits_i128(a + b) {
        Some(a + b)
    } else {
        None
    }
}

/// `FixedI128` difference, `None` where `-` would overflow.
pub open spec fn fsub_opt(a: int, b: int) -> Option<int> {
    if fits_i128(a - b) {
        Some(a - b)
    } else {
        None
    }
}

/// `r` is the integer square root of `n`.
pub open spec fn is_isqrt(r: int, n: int) -> bool {
    0 <= r && r * r <= n < (r + 1) * (r + 1)
}

/// What `FixedI128::try_sqrt` gives for the inner value `a`.
pub open spec fn fsqrt_ok(a: int, r: int) -> bool {
    if a * fx_one() <= u128::MAX {
        is_isqrt(r, a * fx_one())
    } else {
        r % 1_000_000_000 == 0 && is_isqrt(r / 1_000_000_000, a)
    }
}

/// Inner value of the `EqFixedU128` product `a * b`, rounded down.
pub open spec fn eq_mul_spec(a: int, b: int) -> int {
    a * b / eq_one()
}

/// Inner value of the `EqFixedU128` quotient `a / b`, rounded down.
pub open spec fn eq_div_spec(a: int, b: int) -> int {
    a * eq_one() / b
}

/// Inner value of `FixedI128` converted from the `EqFixedU128` inner value `x`.
pub open spec fn eq_to_fx_spec(x: int) -> int {
    x * 1_000_000_000
}


/// The `FixedI128` square root of the inner value `a` (`a >= 0`): the unique
/// value that `FixedI128::try_sqrt` gives.
pub open spec fn fsqrt_spec(a: int) -> int {
    choose|r: int| fsqrt_ok(a, r)
}

proof fn lemma_isqrt_unique(r1: int, r2: int, n: int)
    requires
        is_isqrt(r1, n),
        is_isqrt(r2, n),
    ensures
        r1 == r2,
{
    if r1 < r2 {
        assert((r1 + 1) * (r1 + 1) <= r2 * r2) by (nonlinear_arith)
            requires
                0 <= r1,
                r1 + 1 <= r2,
        ;
    }
    if r2 < r1 {
        assert((r2 + 1) * (r2 + 1) <= r1 * r1) by (nonlinear_arith)
            requires
                0 <= r2,
                r2 + 1 <= r1,
        ;
    }
}

/// The square root that `FixedI128::try_sqrt` gives is unique.
pub proof fn lemma_fsqrt_unique(a: int, r: int)
    requires
        fsqrt_ok(a, r),
    ensures
        r == fsqrt_spec(a),
{
    let c = fsqrt_spec(a);
    assert(fsqrt_ok(a, c));
    if a * fx_one() <= u128::MAX {
        lemma_isqrt_unique(r, c, a * fx_one());
    } else {
        lemma_isqrt_unique(r / 1_000_000_000, c / 1_000_000_000, a);
        vstd::arithmetic::div_mod::lemma_fundamental_div_mod(r, 1_000_000_000);
        vstd::arithmetic::div_mod::lemma_fundamental_div_mod(c, 1_000_000_000);
    }
}

// ---------------------------------------------------------------------------
// Calls into sp_arithmetic
// ---------------------------------------------------------------------------

/// `sp_arithmetic::helpers_128bit::multiply_by_rational_with_rounding` with
/// `Rounding::Down`: `floor(a * b / c)` computed over 256 bits, `None` when
/// `c == 0` or when the quotient does not fit in `u128`.
#[verifier::external_body]
pub(crate) fn mul_div_floor(a: u128, b: u128, c: u128) -> (r: Option<u128>)
    ensures
        c == 0 ==> r is None,
        c != 0 ==> r == (if a * b / (c as int) <= u128::MAX {
            Some((a * b / (c as int)) as u128)
        } else {
            None
        }),
{
    multiply_by_rational_with_rounding(a, b, c, Rounding::Down)
}

/// `FixedI128::checked_mul` on inner values: the product `a * b / 10^18`
/// rounded toward zero, `None` when it does not fit.
#[verifier::external_body]
pub(crate) fn fixed_i128_checked_mul(a: i128, b: i128) -> (r: Option<i128>)
    ensures
        r == (if fits_i128(fmul(a as int, b as int)) {
            Some(fmul(a as int, b as int) as i128)
        } else {
            None
        }),
{
    FixedI128::from_inner(a).checked_mul(&FixedI128::from_inner(b)).map(|x| x.into_inner())
}

/// `FixedI128::checked_div` on inner values: `a * 10^18 / b` rounded toward
/// zero, `None` when `b == 0` or when it does not fit.
#[verifier::external_body]
pub(crate) fn fixed_i128_checked_div(a: i128, b: i128) -> (r: Option<i128>)
    ensures
        r == (if b != 0 && fits_i128(fdiv(a as int, b as int)) {
            Some(fdiv(a as int, b as int) as i128)
        } else {
            None
        }),
{
    FixedI128::from_inner(a).checked_div(&FixedI128::from_inner(b)).map(|x| x.into_inner())
}

/// `FixedI128::try_sqrt` on inner values: `None` for a negative input,
/// otherwise the integer square root of `a * 10^18` (or, where that product
/// exceeds `u128`, `isqrt(a) * 10^9`).
#[verifier::external_body]
pub(crate) fn fixed_i128_try_sqrt(a: i128) -> (r: Option<i128>)
    ensures
        a < 0 ==> r is None,
        a >= 0 ==> r is Some && fsqrt_ok(a as int, r->0 as int),
{
    FixedI128::from_inner(a).try_sqrt().map(|x| x.into_inner())
}

/// `FixedI128::saturating_from_integer` for a `u64`: `n * 10^18`, which always fits.
#[verifier::external_body]
pub(crate) fn fixed_i128_from_u64(n: u64) -> (r: i128)
    ensures
        r == n * fx_one(),
{
    FixedI128::saturating_from_integer(n).into_inner()
}

/// `FixedI128::from(Permill::from_parts(parts))`: the parts, clamped to one
/// million, scaled to `10^18`.
#[verifier::external_body]
pub(crate) fn fixed_i128_from_permill(parts: u32) -> (r: i128)
    ensures
        r == (if parts <= 1_000_000 {
            parts as int
        } else {
            1_000_000
        }) * 1_000_000_000_000,
{
    FixedI128::from(Permill::from_parts(parts)).into_inner()
}

/// `FixedI64::checked_from_rational(n, d)` on inner values: `n * 10^9 / d`
/// rounded down, `None` when `d == 0` or when it exceeds `i64`.
#[verifier::external_body]
pub(crate) fn fixed_i64_checked_from_rational(n: u128, d: u128) -> (r: Option<i64>)
    ensures
        r == (if d != 0 && n * eq_one() / (d as int) <= i64::MAX {
            Some((n * eq_one() / (d as int)) as i64)
        } else {
            None
        }),
{
    FixedI64::checked_from_rational(n, d).map(|x| x.into_inner())
}

/// `FixedI64::checked_mul` on inner values: `a * b / 10^9` rounded toward
/// zero, `None` when it does not fit in `i64`.
#[verifier::external_body]
pub(crate) fn fixed_i64_checked_mul(a: i64, b: i64) -> (r: Option<i64>)
    ensures
        r == (if fits_i64(tdiv(a * b, eq_one())) {
            Some(tdiv(a * b, eq_one()) as i64)
        } else {
            None
        }),
{
    FixedI64::from_inner(a).checked_mul(&FixedI64::from_inner(b)).map(|x| x.into_inner())
}

/// `FixedI64::from(Permill::from_parts(parts))`: the parts, clamped to one
/// million, scaled to `10^9`.
#[verifier::external_body]
pub(crate) fn fixed_i64_from_permill(parts: u32) -> (r: i64)
    ensures
        r == (if parts <= 1_000_000 {
            parts as int
        } else {
            1_000_000
        }) * 1_000,
{
    FixedI64::from(Permill::from_parts(parts)).into_inner()
}

/// Parts per million, clamped as `Permill::from_parts` clamps them.
pub open spec fn permill_parts(parts: int) -> int {
    if parts <= 1_000_000 {
        parts
    } else {
        1_000_000
    }
}

/// `x * p / 10^6` rounded to the nearest integer, halves rounded down.
pub open spec fn permill_mul_spec(p: int, x: int) -> int {
    x * p / 1_000_000 + if (x * p) % 1_000_000 > 500_000 {
        1int
    } else {
        0int
    }
}

/// `x * 10^6 / p` rounded to the nearest integer, halves rounded up,
/// saturated at `u128::MAX`.
pub open spec fn permill_reciprocal_spec(p: int, x: int) -> int {
    let v = x * 1_000_000 / p + if (x * 1_000_000) % p >= p / 2 + p % 2 {
        1int
    } else {
        0int
    };
    if v > u128::MAX {
        u128::MAX as int
    } else {
        v
    }
}

/// `Permill::from_parts(parts) * x` for a `u128` balance.
#[verifier::external_body]
pub(crate) fn permill_mul(parts: u32, x: u128) -> (r: u128)
    ensures
        r == permill_mul_spec(permill_parts(parts as int), x as int),
{
    Permill::from_parts(parts) * x
}

/// `Permill::from_parts(parts).saturating_reciprocal_mul(x)`: `x / p`
/// rounded to nearest (halves up), saturating at `u128::MAX`. The crate
/// divides by the parts, so zero parts are excluded.
#[verifier::external_body]
pub(crate) fn permill_saturating_reciprocal_mul(parts: u32, x: u128) -> (r: u128)
    requires
        parts > 0,
    ensures
        r == permill_reciprocal_spec(permill_parts(parts as int), x as int),
{
    Permill::from_parts(parts).saturating_reciprocal_mul(x)
}

/// `Percent::from_parts(parts).mul_floor(x)`: `x * p / 100` rounded down,
/// the parts clamped to one hundred.
#[verifier::external_body]
pub(crate) fn percent_mul_floor(parts: u8, x: u128) -> (r: u128)
    ensures
        r == x * (if parts <= 100 {
            parts as int
        } else {
            100
        }) / 100,
{
    Percent::from_parts(parts).mul_floor(x)
}

// ---------------------------------------------------------------------------
// FixedI128 operators
// ---------------------------------------------------------------------------

/// `FixedI128` multiplication (`*`); the operator panics on overflow, which
/// the precondition excludes.
pub fn fx_mul(a: i128, b: i128) -> (r: i128)
    requires
        fits_i128(fmul(a as int, b as int)),
    ensures
        r == fmul(a as int, b as int),
{
    match fixed_i128_checked_mul(a, b) {
        Some(r) => r,
        None => {
            proof {
                assert(false);
            }
            0
        },
    }
}

/// `FixedI128` division (`/`); the operator panics on a zero divisor and on
/// overflow, which the precondition excludes.
pub fn fx_div(a: i128, b: i128) -> (r: i128)
    requires
        b != 0,
        fits_i128(fdiv(a as int, b as int)),
    ensures
        r == fdiv(a as int, b as int),
{
    match fixed_i128_checked_div(a, b) {
        Some(r) => r,
        None => {
            proof {
                assert(false);
            }
            0
        },
    }
}

// ---------------------------------------------------------------------------
// EqFixedU128
// ---------------------------------------------------------------------------

/// `EqFixedU128` multiplication (`*`), rounded down; the operator panics on
/// overflow, which the precondition excludes.
pub fn eq_mul(a: u128, b: u128) -> (r: u128)
    requires
        eq_mul_spec(a as int, b as int) <= u128::MAX,
    ensures
        r == eq_mul_spec(a as int, b as int),
{
    match mul_div_floor(a, b, EQ_ONE) {
        Some(r) => r,
        None => {
            proof {
                assert(false);
            }
            0
        },
    }
}

/// `EqFixedU128` division (`/`), rounded down; panics on a zero divisor and
/// on overflow, which the precondition excludes.
pub fn eq_div(a: u128, b: u128) -> (r: u128)
    requires
        b != 0,
        eq_div_spec(a as int, b as int) <= u128::MAX,
    ensures
        r == eq_div_spec(a as int, b as int),
{
    match mul_div_floor(a, EQ_ONE, b) {
        Some(r) => r,
        None => {
            proof {
                assert(false);
            }
            0
        },
    }
}

/// `EqFixedU128::checked_mul_int`: `a * n` with the fraction dropped, `None`
/// when it exceeds `u128`.
pub fn eq_checked_mul_int(a: u128, n: u128) -> (r: Option<u128>)
    ensures
        r == (if eq_mul_spec(a as int, n as int) <= u128::MAX {
            Some(eq_mul_spec(a as int, n as int) as u128)
        } else {
            None
        }),
{
    mul_div_floor(a, n, EQ_ONE)
}

/// `EqFixedU128::checked_from_rational(n, d)`: `n / d` rounded down, `None`
/// when `d == 0` or when it exceeds the type.
pub fn eq_checked_from_rational(n: u128, d: u128) -> (r: Option<u128>)
    ensures
        r == (if d != 0 && eq_div_spec(n as int, d as int) <= u128::MAX {
            Some(eq_div_spec(n as int, d as int) as u128)
        } else {
            None
        }),
{
    mul_div_floor(n, EQ_ONE, d)
}

/// `EqFixedU128::reciprocal`: `1 / a` rounded down, `None` for zero.
pub fn eq_reciprocal(a: u128) -> (r: Option<u128>)
    ensures
        r == (if a != 0 {
            Some(eq_div_spec(eq_one(), a as int) as u128)
        } else {
            None
        }),
{
    if a == 0 {
        return None;
    }
    proof {
        assert(eq_div_spec(eq_one(), a as int) <= eq_one() * eq_one()) by (nonlinear_arith)
            requires
                a >= 1,
        ;
    }
    mul_div_floor(EQ_ONE, EQ_ONE, a)
}

/// `EqFixedU128::from(n)`: `n` scaled to `10^9`, saturating at the maximum.
pub fn eq_from_integer(n: u128) -> (r: u128)
    ensures
        r == (if n * eq_one() <= u128::MAX {
            n * eq_one()
        } else {
            u128::MAX as int
        }),
{
    n.checked_mul(EQ_ONE).unwrap_or(u128::MAX)
}

/// Conversion of an `EqFixedU128` value to `FixedI128`: the inner value is
/// rescaled from `10^9` to `10^18`; `None` when it exceeds `FixedI128`.
pub fn fixedi128_from_eq_fixedu128(x: u128) -> (r: Option<i128>)
    ensures
        r == (if eq_to_fx_spec(x as int) <= i128::MAX {
            Some(eq_to_fx_spec(x as int) as i128)
        } else {
            None
        }),
{
    if x <= (i128::MAX as u128) / 1_000_000_000 {
        proof {
            assert(x * 1_000_000_000 <= i128::MAX) by (nonlinear_arith)
                requires
                    x <= i128::MAX / 1_000_000_000,
            ;
        }
        Some((x * 1_000_000_000) as i128)
    } else {
        proof {
            assert(x * 1_000_000_000 > i128::MAX) by (nonlinear_arith)
                requires
                    x > i128::MAX / 1_000_000_000,
            ;
        }
        None
    }
}

} // verus!
