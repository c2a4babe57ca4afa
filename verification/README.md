# eq_pallets

The decision and arithmetic core of the Equilibrium pallets, written in Verus
and proved against its contracts. Storage, extrinsics, events and the calls
into other pallets stay with the runtime; each function here takes what the
runtime reads as plain values and returns what the runtime is to do.

- `fixed`: `FixedI128`, `FixedI64`, `Permill` and `Percent` arithmetic from
  `sp-arithmetic`, and the nine-decimal `EqFixedU128` built on its 256-bit
  `multiply_by_rational_with_rounding`.
- `rate`: the interest-rate risk model (weights, covariances, portfolio
  volatilities, solvency scale, leverage, borrower volatility, debt weights).
- `fee`: the interest fee of an account and its split between treasury,
  bailsmen and lenders.
- `reinit`: the offchain worker's choice of requests, validation of unsigned
  requests, whether an account needs a reinit, and the reinit steps.
- `treasury`: buyouts at oracle prices with the sell fee, the daily buyout
  limit, and the buyout of a debt in the basic asset by priority.
- `swap`: EQ to Q swaps and their vesting.
- `staking`: stakes, reward stakes and the set of paid reward ids.
- `subaccounts`: the registry of subaccounts and the transfer plans.
- `vesting`: linear vesting schedules.
- `wrapped_dot`: the EQDOT/DOT ratio, mint and burn amounts, the withdrawal
  queue, the relay ledger and the reserve rebalancing.
- `whitelist`, `session`: sorted whitelist and the validator set.
- `balance`: signed balances. `doubles`: test doubles of collaborators.

The tests under `tests/` run the library on the pallets' scenarios.
