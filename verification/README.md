# georuggine

A trip-tracking server whose rules are verified with Verus.

- `src/` is the library: sessions with one login per user, accounts, the
  protocol of a connection as a state machine, stop detection, movement
  statistics, the operator's commands, and the vehicle simulator. Every function
  states what it does and is proved to do it; `src/laws.rs` and the functions
  named `law_…` state what holds of them together.
- `app/` is the program around it: web sockets, SQLite, the clock, the terminal,
  JSON, and floating-point arithmetic.
- `tests/` runs the library on concrete values.

Doubles are held in the library as their bit patterns. It compares them; sums,
products and distances it asks of its caller.

What the proofs rest on and do not show: `bcrypt::hash` and `bcrypt::verify`
(`src/credentials.rs`) and `String::from_utf8` (`src/text.rs`).
