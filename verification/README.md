# kraken_ws_sdk

A Kraken WebSocket SDK whose core is written in Verus. The library's
functions state their behaviour in `requires`/`ensures` and Verus proves
them, with two exceptions: functions whose result depends on the clock or on
chance (nonces, elapsed times, fresh identifiers) promise nothing of that
value, and the calls into `std`, `rust_decimal`, `chrono`, `serde_json`,
`base64`, `sha2`, `hmac` and `uuid` sit behind small trusted wrappers whose
contracts are taken on trust from those crates' documentation and source.

## Layout

- `src/` — the verified library.
  - Connection: `state` (connection state machine), `connection` (ping/pong
    health, authentication messages and replies, reconnection steps), `retry`
    (circuit breaker), `clock`.
  - Market data: `data`, `parser` (Kraken messages read from their JSON text),
    `orderbook` (books, depth ladders, imbalance, aggregation, checksums),
    `orderflow` (order-flow events, trades by price level, stale markets),
    `sequencing` (gap detection and resync), `backpressure`, `subscription`.
  - Trading: `trading` (orders, balances, positions), `batch_orders`
    (batches, OCO and bracket orders, position sizing), `rest` (REST request
    parameters and replies), `auth` (request signing), `private_ws`.
  - Metrics: `performance`, `latency`, `telemetry`, `middleware`,
    `rate_limit`, `alerts`, `events`, `error`.
  - Multi-exchange: `exchange` and `exchange::adapters`; `sdk` (the
    high-level SDK facade).
  - `decimal`, `text`, `json_text`, `sorting`: decimals, text rendering and
    sorting shared by the modules above.
- `tests/` — tests run against the compiled library.
- `app/` — the program around the library: network clients (WebSocket and
  REST), asynchronous dispatch of events and middleware, logging, and the
  features computed in floating point (latency statistics, heatmaps, whale
  and spoofing detection, retry delays).

Times are microseconds since the Unix epoch (UTC) throughout the library.
