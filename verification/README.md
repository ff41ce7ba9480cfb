# Feynman — a verified execution engine

The decision logic of an execution engine for multi-agent trading, written in Rust and
verified with Verus. `src/` is the library: every function in it is proved against its
contract. `app/` is the program around it: the configuration file, Redis Streams, the
SQLite journal, Bybit's REST interface and websocket streams, and the tasks that connect
them. Verus does not read `app/`.

## Modules

| Module | What it holds |
|--------|---------------|
| `decimal`, `time`, `text`, `hexadecimal`, `table` | Numbers, points in time, text and keyed tables |
| `ids`, `signal`, `pipeline`, `portfolio`, `limits`, `event`, `fees`, `health`, `venue`, `market_data`, `pnl`, `reconciliation`, `clock` | The domain: identifiers, signals, the order pipeline, books, limits, events |
| `agent_risk`, `risk` | Risk checks per agent and the projections that they work on |
| `circuit_breaker` | The bank of circuit breakers and their latches |
| `gateway` | Symbol map, venue routing, and the bridge from signals to orders |
| `bybit`, `signing` | The Bybit adapter: requests, replies, the private and public stream sessions |
| `engine`, `sequencer` | Engine state and the sequencer that processes one command at a time |
| `journal` | What a commit writes, what a replay gives back, schema versions |
| `bus` | Framing of bus messages and the outcome of every Redis reply |
| `settings`, `cli`, `smoke`, `observability` | Configuration, arguments, the testnet round, observability types |

## Reading the contracts

- A `Decimal` has a mantissa and a scale, and its view is a `Num`. Arithmetic is that of
  `rust_decimal`. Where nothing is rounded, contracts give the exact result; elsewhere they
  speak of the result by a name, and say that rounding passes no number that can be written.
- Clocks, price sources and engine cores are traits. Their `may_..` functions say which
  answers each of them may give; contracts fix what is asked, and what follows from every
  answer.
- Functions whose arithmetic may leave the range of a decimal require that it does not.
  Beside each stands one named `checked_..`, which returns `None` instead.
- Functions named `law_..` state what holds across functions.
- Calls into other crates stand in small functions marked `#[verifier::external_body]`.
  Their contracts are the ones that are believed rather than proved.
