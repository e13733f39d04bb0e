# tradeos

The deterministic core of a multi-broker trading platform, written in Verus
and proved against its contracts.

## Layout

- `src/` — the verified library.
  - `domain` — ticks, bars, order intents, execution events, the
    `MarketDataSource` and `Broker` ports, the signal expiry rule.
  - `execution` — the idempotency guard, the order router (atomic SL/TP,
    idempotent resubmission), the seedable simulated broker and the
    per-account dispatcher.
  - `market_data` — folding ticks into fixed-timeframe OHLCV bars.
  - `tradingview` — webhook authentication, UDF resolutions, resampling,
    history windows and the per-symbol alert bar store.
  - `ctrader` — length-prefixed framing, the reply interpretation of the
    broker adapter, request/reply demultiplexing and the server test
    double's order book.
  - `mt5` — market-data frame headers, sequence-gap stamping, order replies
    and the bridge test double.
  - `runs` — what a run of calls yields, and counters that count up
    along such a run.
  - `binance`, `desktop`, `bus`, `notify`, `indicators` — placeholders and
    shared types.
- `tests/` — executable tests of the library.
- `app/` — everything around it that the verifier does not take: socket
  and HTTP transports, async ports, JSON/rkyv encodings, floating-point
  indicators and features, and the programs' entry points.
