# stable_protocol

Verified decision logic of a family of Soroban DeFi contracts, written in
Verus:

- `governance`: proposals paid for in a governance token, quadratic voting,
  ending and executing proposals;
- `locking_pool`: time-locked deposits sharing distributed rewards through a
  cumulative reward factor;
- `vaults`: collateralised vaults that mint a stablecoin, and their
  liquidation; vaults are linked in a list whose place the caller names by
  the previous key (the engine checks that the previous vault's index is not
  above the new one, and links and unlinks vaults, but states no ordering
  invariant of the whole list);
- `safety_pool`: a pool of stablecoins that pays off undercollateralised
  vaults and shares the collateral received among its depositors through
  per-liquidation records; `factor_safety_pool` is the earlier design that
  shares it through a collateral factor;
- `stable_liquidity_pool`: the storage types and errors of the stable pool.

Every entry point is a function from what the contract reads (storage,
ledger time, oracle prices) to what it writes, pays or refuses, with a
contract that states the result exactly. Public proof functions state the
properties that span several calls (for example, that a deposit withdrawn
before any distribution leaves the pool as it found it, or that claims of
liquidated collateral neither create nor destroy it).

`app/` holds the Soroban contracts themselves: storage, authorisation,
token transfers and calls between contracts, around the library.
