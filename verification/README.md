# c3po

A research pipeline for short-lived crypto up/down prediction markets. It discovers
markets, captures each market's price to beat from the opening tick of the price feed,
follows the order books of the markets' tokens, pairs markets of one asset that end
together, and evaluates two-leg packages (the up token of one market with the down
token of the other) against the books: at the top of the book and through their depth.
Packages that pass every check become signals.

## Layout

- `src/` — the library, verified with Verus. Every public function states its result
  in its `ensures`; the laws that relate several functions are public proof functions
  (`lemma_*`) beside them.
  - `decimal`, `text`, `num` — fixed-point decimals (arithmetic and parsing done by
    `rust_decimal`), string helpers, integer helpers.
  - `types` — assets, timeframes, identifiers, books, markets, prices to beat, ticks,
    evaluation rows, signals.
  - `config` — configuration parsing and validation.
  - `registry`, `book_store`, `tick_store`, `ptb_store` — the stores.
  - `market_scanner`, `rtds`, `clob` — reading the market API, the price feed and the
    order-book feed.
  - `relation_engine`, `evaluator`, `depth_engine`, `signal_engine` — pairing,
    evaluation, depth sizing and signal checks.
  - `telemetry`, `runtime`, `persistence` — snapshots and health checks, one round of
    each periodic task, opportunity records.
- `tests/` — tests of the library on concrete values.
- `app/` — the program around the library: configuration files, HTTP, websockets,
  JSON decoding, JSON-lines files and the task loops.
