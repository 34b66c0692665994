# volatility_estimator

A verified core for an ETH/USDC volatility estimator that fuses a centralized
(Kraken) and a decentralized (Uniswap v3) feed.

`src/` is the Verus library:

- `time` — instants as seconds and nanoseconds, minute bucketing, RFC 3339 text.
- `decimal` — `Amount`, the mantissa and scale of a `rust_decimal::Decimal`, and
  the decimal operations the logic uses.
- `engine` — the domain (prices, trades, venues, estimates), the one-minute VWAP
  bar calculator and the decimal volatility calculator.
- `volatility` — windows: when each is due, which prices it samples, how long
  prices are kept.
- `data_sources::dex::uniswap` — two's-complement amounts, swap sides, pool
  addresses and hexadecimal.
- `data_sources::dex::swap_log` — a swap event's ABI as plain values, and the
  decoding of a raw swap log into its fields.
- `infrastructure::storage` — the CSV files, their headers and rows, rotation
  and expiry decisions.
- `config`, `services`, `runtime`, `error`, `paths`, `text` — configuration,
  maintenance and the market-data step, the price loop's state, errors and
  small helpers.

`app/` is the program around it: websocket feeds, file I/O, the asynchronous
tasks, the floating-point cleaning, VWAP and volatility code, and the two
square roots of the decimal estimate (rust_decimal's `sqrt` can panic where
its iteration does not settle; the library takes the roots as arguments).
