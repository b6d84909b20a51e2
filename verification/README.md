# athenas_pallas

The core of an event-driven backtesting engine, written in Verus: every function in `src/`
carries a `requires`/`ensures` contract over mathematical models (sequences, maps, integers and
exact decimals) and is proved against it.

## Layout

- `src/decimal.rs`, `src/text.rs`: the decimal model (`mantissa / 10^scale`, the representation
  of `rust_decimal`) and text helpers. Arithmetic that only `rust_decimal` performs is reached
  through small trusted wrappers whose contracts give the exact result whenever it is
  representable.
- `src/calendar.rs`, `src/lifecycle.rs`: civil dates, US market holidays, sessions in New York
  time with US daylight saving, funding, coupon and expiry dates.
- `src/config.rs`, `src/settings.rs`, `src/registry.rs`, `src/instrument.rs`: configuration
  values, the checks applied when a configuration file is read, registry metadata with each
  asset class's defaults, and the instrument registry checks.
- `src/orders.rs`, `src/state.rs`, `src/execution.rs`: orders, the engine state and the paper
  fill engine (placement, resting orders, OCO groups, fees, slippage, balance updates).
- `src/events.rs`, `src/engine.rs`, `src/control.rs`, `src/audit.rs`, `src/runner.rs`: events
  and the decisions the engine takes on them, as steps from state and input to the next action:
  the event step (ingest, strategy gate, intent handling and its audit records), operator
  commands, the replay run's setup and per-event pipeline.
- `src/bar.rs`, `src/pbar.rs`, `src/sources.rs`, `src/merge.rs`: bars in ticks, the `.pbar`
  binary cache, replay sources and their time-ordered merge.
- `src/alpha_vantage.rs`, `src/binance.rs`, `src/yahoo.rs`, `src/databento.rs`, `src/export.rs`,
  `src/intervals.rs`, `src/dotenv.rs`: market-data readers and writers as functions on values.
- `src/cli.rs`, `src/strategy.rs`, `src/report.rs`: resampling, strategy path resolution and
  report rows.
- `app/`: the command-line program: file and network access, printing, and the parts that are
  not verified; every decision it makes is a call into the library.
- `tests/`: ordinary Rust tests of the library.

Laws that relate several functions are public proof functions named `law_*`.
