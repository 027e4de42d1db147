# long_short_pair

Verified core of a long/short pair derivatives protocol on Soroban: a pair holds
collateral and mints equal amounts of long and short tokens; an oracle TWAP and a
linear calculator decide how the collateral is split between the two sides, and
the pair expires once the TWAP reaches either of its price bounds.

- `src/` is the library, verified with Verus:
  - `pair` — collateral accounting for mint, redeem, one-sided redemption and
    settlement synchronisation, with the pair's laws;
  - `calculator`, `pair_calculator`, `linear` — the price-to-allocation mapping;
  - `ln` — fixed-point natural logarithm;
  - `oracle`, `normal_oracle` — price sanitising, TWAPs and validity checks;
  - `funding` — funding rates between the two pools of a pair;
  - `pool` — constant-product pool math and swap-risk checks;
  - `factory` — the registry of deployed pairs;
  - `fixed_point` — fixed-point multiply/divide through `soroban-fixed-point-math`.
- `app/` holds the Soroban contracts around the library: storage, authorization,
  token transfers, cross-contract calls and events.
- `tests/` runs the library on concrete values.
