# blitz_load

An HTTP load tester: it fires a capped number of requests (at most 500, at
most 50 in flight), tallies every outcome, and reports p50/p95/p99 latencies
and the spread of request start times, on the terminal or as a live event
stream from a small web server.

Layout:

- `src/` — the verified library (Verus).
  - `engine` — run configuration, safety caps, request payloads.
  - `tally` — the running tally of a test and its progress and final reports.
  - `stats` — sorting, percentiles, start-time spread.
  - `request` — API requests and command-line options to configurations,
    defaults, URL check, port parsing.
  - `json`, `ident`, `text` — JSON text of flat string objects (through
    `serde_json`), random UUID text (through `uuid`), small text operations.
- `app/` — the binaries around it: the command line (`clap`, `indicatif`),
  the web server (`axum`, `tower-http`, `dashmap`), and the async runner
  (`tokio`, `reqwest`) that performs the requests and feeds the tally.
- `tests/` — tests of the library.
