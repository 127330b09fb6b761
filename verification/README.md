# levana_perps

A verified library for a perpetual swaps protocol on CosmWasm chains: the
market's positions, fees, funding, delta neutrality fees, liquidity pool,
deferred execution queue and crank, the vault that spreads deposits over
markets, the LVN rewards, the Pyth price bridge, and the code tracker.

- `src/` is the library, written in Verus. Every function states its
  behaviour in `requires` / `ensures` over mathematical models (atom counts
  as integers, sequences, maps), and Verus proves it. Laws that span
  several functions are public proof functions (for instance the path
  independence of the delta neutrality fee, the funding invariant, and the
  telescoping of a data series' integrals).
- Calls into outside crates (cosmwasm-std decimals, cw-utils expirations,
  semver, Pyth) stand behind small trusted wrappers whose contracts state
  what those crates' sources do.
- `app/` is ordinary Rust around the library: the contracts' entry points,
  storage, queries to other contracts and the messages they send.
- `tests/` runs the library on concrete values.
