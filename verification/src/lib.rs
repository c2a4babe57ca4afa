//! Verified core of the Equilibrium pallets: the interest-rate model, fee
//! calculation, vesting schedules, wrapped DOT staking arithmetic, treasury
//! buyouts, EQ-to-Q swaps, staking locks, subaccounts, whitelists and the
//! session manager.
//!
//! Fixed-point numbers are carried by their inner integers: a `FixedI128`
//! value is an `i128` scaled by `10^18`, an `EqFixedU128` value a `u128`
//! scaled by `10^9`.
pub mod fixed;
pub mod rate;
pub mod fee;
pub mod balance;
pub mod treasury;
pub mod reinit;
pub mod swap;
pub mod staking;
pub mod subaccounts;
pub mod vesting;
pub mod wrapped_dot;
pub mod whitelist;
pub mod session;
pub mod doubles;
