# logic

The rules of a game server, written in Verus and proved against their
contracts: the events (check-ins, puzzles, stories, board and dice games, hero
picks, the event catalog), battle passes, the guide, the command post, the
tower, heroes' destinies, hero-group snapshots, month-card claims, fights'
bookkeeping, reward pushes, the player's daily bookkeeping and the login
handshake.

Layout:

- `src/` — the verified library. Each function states in `requires` and
  `ensures` what it decides; tables are passed in as rows, stored progress as
  plain values. Laws that span several functions are public proof functions
  named `law_*`.
- `src/text.rs`, `src/sorting.rs` — the text readers and stable sorts the rest
  is built on, with their own laws (numbers read back as written, sorts keep
  the order of equal keys).
- `src/clock.rs`, `src/battle.rs`, `src/session.rs`, `src/activity/weights.rs`,
  `src/activity/act197.rs` — the few calls into `chrono`, `flate2`, `rand`,
  `serde_json` and `std`, each behind one small trusted function whose contract
  says what the crate documents.
- `tests/` — the tests, run against the compiled library.
- `app/` — the stored-record copies with their serde derives, the error type
  with the storage and encoding failures, and the conversions between them.
