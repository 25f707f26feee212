# nexus

A library for trading on the Drift protocol on Solana: an account cache fed
by a stream of slots, blocks and account updates; the Drift market maker
(AMM) arithmetic; order books of users' orders; the accounts that Drift
instructions need; copying and cancelling orders; and a few indicators.

Everything under `src/` is verified with Verus: the public functions state
in their contracts what they return or change (the timers, whose readings
come from the clock, promise nothing of them), and the laws that relate
several functions are public proof functions (their names start with
`lemma_`).

- `src/cache.rs`, `src/nexus_client.rs`: the account and block cache, and
  reading streamed transactions into it.
- `src/drift_client/`: AMM spreads and reserves (`amm.rs`), big-number
  arithmetic over `num-bigint` (`bigint.rs`), market ids and remaining
  accounts (`types.rs`), program derived addresses (`utils.rs`), market
  configs (`program_data.rs`), order books (`orderbook.rs`), the accounts of
  an instruction (`client.rs`, `remaining.rs`), copied and cancelled orders
  (`orders.rs`)
  and trader rankings (`trader.rs`).
- `src/drift_cpi.rs`: the Drift account types, as plain values.
- `src/utils/`: ring buffers and a ring map, stable sorting by key, timers.
- `src/trx_builder.rs`: confirming transactions and priority fees.
- `src/math/`: entropy patterns and interval halving.

`app/` holds what runs on floating point numbers or speaks a wire format
(serde, CSV, FFT, prices in dollars), and the loops that wait on the
network around the library's stream and confirmation steps, and
`tests/` the tests.
