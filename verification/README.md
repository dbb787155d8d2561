# spotwatt

A power-price-aware job scheduler for a homelab: it defers deferrable work
(backups, transcoding, training runs) to the cheapest hours of the day using
Norwegian spot prices, and runs it.

## Layout

- `src/` — the scheduling logic, verified with Verus. Every quantity is an
  integer: instants are Unix seconds, prices micro-kroner per kWh, fractions
  parts per million, power watts, costs micro-kroner.
  - `price`, `tariff`, `window`, `cost` — the price curve, the effective
    tariff (grid rent, tax, VAT, strømstøtte), cheapest windows, run costs.
  - `schedule` — `plan`: should a job start now, and if not, when.
  - `select`, `scheduler` — which due jobs a tick launches, by priority and
    deadline, within the free slots and the site power budget.
  - `learn` — runtime estimates learned from run history.
  - `model`, `form`, `display`, `executor`, `config` — job records, input
    validation, what the dashboard shows, how a finished run is recorded.
  - `cli`, `backtest` — the command-line client's logic and the historical
    replay.
  - `time` — Oslo local time and date/time parsing, through chrono.
- `app/` — the daemon (axum, sqlx, tokio, maud), the command-line client
  (clap, reqwest) and the backtester around the library.
- `tests/` — tests of the library.

Run `spotwatt` for the server and dashboard, `spotwatt cli …` for the
client, `spotwatt backtest --region NO1 --days 365` for the replay.
The dashboard has no authentication and runs commands via `sh -c`; expose
it only where that is acceptable.
