# simulated-exchange

A simulated exchange, verified with Verus. It holds an account, settles market orders against it at
once and in full, and keeps order books in price and time priority.

- `src/` is the verified library. `exchange` answers requests, `account` keeps balances, orders and
  trades, `book` keeps waiting orders, and `decimal`, `time`, `text`, `grouping` and `instrument`
  reach the crates that compute numbers, times, texts, groups and lookups.
- `tests/` runs the library with those crates.
- `app/` runs an exchange as an asynchronous task, with channels for requests and events.

Each contract that rests on an outside crate stands on a function marked `external_body`, whose
comment names the outside function and says what is taken from it.
