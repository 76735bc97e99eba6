# Rocket Slogger

Structured logging rules for a [Rocket](https://rocket.rs) server, verified with
[Verus](https://github.com/verus-lang/verus), and the fairing that applies them
with [`slog`](https://github.com/slog-rs/slog).

## Layout

- `src/` is the verified library. It decides which requests are logged, which
  fields each line carries, and what a launch reports. It reads the server as
  plain values and knows nothing of how a line is written.
  - `path` splits paths, `text` holds what is said of strings.
  - `filter` matches path patterns, resolves the show and skip lists, decides on
    requests and classifies routes; `filter_laws` states what holds of that as a
    whole.
  - `response_log` holds the fields that request code adds to a response line.
  - `transaction` holds the id and the start time of a request, from `uuid` and
    `chrono`.
  - `fairing` builds the launch report and steps a request from its request line
    to its response line and header.
  - `from_request` resolves the logger as a request guard.
  - `http` holds the plain values.
- `app/` is the Rocket fairing: it reads Rocket's values, shares what is kept per
  request, runs the hooks, and writes the lines to `slog`.
- `tests/` runs the library on given values.

## What is trusted

`chrono` for the clock, for RFC 3339 texts and for durations; `uuid` for fresh
ids and their text; and three small functions of the standard library. Each
stands behind one item with a doc comment that says what is claimed of it.
