# stellar-router

The verified core of the stellar-router suite: quotes and their comparison, the
timelock for configuration changes, the codecs and replies of the Soroban RPC,
rate limiting, replay protection, WebSocket sessions and metric scrapes. The
functions in `src/` carry contracts that Verus proves, but for those that read a
clock, of which nothing is promised. What the library takes on trust of other
crates stands in items marked `external_body` or `assume_specification`, each with
a comment on what it claims.

## Layout

| Module | What it holds |
|---|---|
| `text`, `table`, `json`, `clock`, `headers` | shared pieces |
| `base64`, `address`, `error` | text forms of bytes, addresses, errors |
| `strkey`, `strkey_laws` | text forms of identifiers, and what holds of them |
| `xdr`, `scval` | writing calls, reading returned values |
| `scval_laws`, `route_laws` | what holds of calls, of values and of routes |
| `rpc` | fees and routes out of RPC replies |
| `soroban`, `timelock`, `timelock_laws` | the timelock, and what holds of it |
| `quote`, `quote_laws` | the quote contract, and what holds of it |
| `collector`, `collector_laws` | scrape cycles, and what holds of them |
| `rate_limit`, `replay_protection` | screening of requests |
| `websocket` | sessions of clients that follow transactions |

Logic that waits for something outside is a state machine: `collector::Cycle`
names the next call and takes the reply, `websocket::Session` takes what happened
and says what to do. The contracts keep their state in plain values and are
called with the ledger time and the addresses that have authorized the call.

`app/` holds the rest: HTTP, sockets, Prometheus, environment variables, and the
Soroban contracts that load the state, call the library and store the state.
`tests/` runs the library on concrete values.
