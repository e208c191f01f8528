# upstox_market

Read-only option-chain analytics for NIFTY, BANKNIFTY and SENSEX on Upstox market data,
verified with Verus.

- `src/` is the verified library.
  - `checks`, `trend`, `trend_laws`: check minutes and the intraday-trend table
  - `chain`, `chain_laws`: strike rows, the at-the-money strike, window aggregates
  - `futures`: picking the nearest index future out of an instruments file
  - `poller`, `poller_laws`: the once-a-minute poller as a state machine
  - `live`: the latest state of every index and the market page
  - `client`: requests, responses and errors of the Upstox API
  - `calendar`: dates and clock readings in Indian Standard Time
  - `amount`, `quotes`, `indices`, `text`, `text_map`: what the rest is built on
- `tests/` runs the library, in whole numbers and in double precision.
- `app/` is the service around it: HTTP, JSON, the database, the clock.

Numbers are generic: the library asks only for the operations of `Amount`, so the same
verified code runs on `i64` and on floating point.
