# auto_trade

The decision logic of an automated trading contract, written in Verus:
every function carries a `requires`/`ensures` contract over plain
mathematical models (`Seq`, `Map`, `int`), and the crate's laws are stated
and proved as public proof functions next to the code they speak of.

State is held in plain in-memory books (`OrdMap` is an ordered map with a
verified view). The contract platform's own `Map` and `Vec` are handles to
objects that live in its host environment and exist only next to an `Env`;
nothing of their contents can be read without one, so the library keeps
its state in `OrdMap` and std's `Vec`, whose contents its contracts speak
of. Time, ledger sequence numbers and the answers of outside
services (oracle, exchange fills, balances) are passed in as arguments, so
each function is verified for every value they may take.

Layout:

- `src/store.rs`: the ordered map every book is built on.
- `src/admin.rs`, `src/auth.rs`, `src/emergency.rs`, `src/rate_limit.rs`:
  administration, pauses and circuit breaker statistics, trading
  authorizations, the bridge's emergency pause and recovery checklist, and
  per-user transfer limits.
- `src/oracle.rs`: price freshness, scaling, the oracle circuit breaker and
  per-pair oracle whitelists.
- `src/risk.rs`, `src/advanced_risk.rs`, `src/risk_parity.rs`,
  `src/correlation.rs`, `src/portfolio_insurance.rs`: positions and prices,
  stop losses, inverse-volatility rebalancing, correlation limits and
  drawdown hedging.
- `src/smart_routing.rs`, `src/contract.rs`: routing an order over venues and
  the trade entry point.
- `src/iceberg.rs`, `src/twap.rs`, `src/conditional.rs`, `src/positions.rs`:
  order types and position tracking.
- `src/strategies/`: breakout, DCA, grid, mean reversion, momentum, pairs
  trading, statistical arbitrage, sentiment, ML prediction and arbitrage
  strategies.
- `tests/`: executable tests of the library.
