# options_trader

An options trading client for the tastytrade API. The decision logic is a
Verus-verified library; a thin program around it does the I/O.

## Layout

- `src/` — the verified library
  - `decimal`, `calendar`, `text`: exact decimals (with `rust_decimal`'s
    arithmetic behind trusted wrappers), `%y%m%d` dates (through `chrono`),
    and the string operations the parsers need, stated over `Seq<char>`.
  - `platform::positions`: reading the broker's option symbols (equity and
    future options) and classifying a position into a strategy; legs are
    sorted by strike.
  - `platform::mktdata`: the market-data snapshot store (subscriptions, feed
    events, staleness, options grouped by underlying) and the instrument
    endpoints with percent-encoded symbols.
  - `platform::orders`: closing orders, mid-point pricing, and the in-flight
    guard against duplicate orders.
  - `strategy`: exit rules of credit spreads and iron condors, grouping the
    account's legs into strategies, and the feeds they need.
  - `connectivity`: API error statuses, endpoints, request headers and the two
    streaming session state machines (keep-alives, authorization,
    subscriptions).
- `tests/` — tests of the library on concrete values.
- `app/` — the program: settings, logging, HTTP, websockets, the credentials
  database and the trading loops, each calling into the library.
