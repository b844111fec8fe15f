# cl8y_dex_bots

Verified logic of the CL8Y DEX bot contracts, written in Verus:

- `fee_registry`, `fee_collector`: the CL8Y holding tier ladder that prices the
  protocol fee, and the collector that redeems the fee shares into the treasury.
- `market`, `market_setup`, `market_vault`: the market-grid vault that rebalances
  between two tokens along a price grid, with its deposit, withdrawal, rebalance
  and fee rules.
- `grid_vault`, `grid_funds`, `grid_orders`, `grid_pages`, `grid_reconcile`,
  `grid_replies`, `grid_solvency`, `grid_math`, `grid_types`: the limit-grid
  vault that keeps a ladder of limit orders on a pair, and `grid_manager`, which
  runs many user-owned grid bots in one contract.
- `bot_liquidity`: the pooled liquidity vault for a bot.
- `book`, `id_table`, `id_set`, `math`, `versioning`, `limits`, `errors`: the tables,
  id sets, fixed-point arithmetic and version checks the contracts share.

Each public function states its result in its `ensures`; the laws of the
library are public proof functions named `law_*`.

`tests/` exercises the library on concrete values. `app/` holds the CosmWasm
entry points: message decoding, storage, chain queries and responses around
the library's decisions.
