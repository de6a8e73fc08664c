# meroshare-tui

A terminal dashboard over several share-portfolio (MeroShare) accounts: it
logs into each stored account, fetches its portfolio, and shows totals and
holdings; accounts are added and deleted from the screen.

Layout:

- `src/` — the verified library (Verus):
  - `app.rs` — the screen's state machine. `App::on_key`, `tick`,
    `process_event`, `start_fetch` and `accounts_reloaded` are proved to
    follow the transition functions `key_step`, `tick_step`, `event_step`
    and `fetching`; what the outside must do comes back as an `Effect`.
  - `form.rs` — the add-account form and what submitting it yields.
  - `account.rs` — stored accounts.
  - `text.rs` — amounts with thousands separators, and the std string
    operations the logic uses.
  - `order.rs` — the order in which holdings are listed (stable, by
    case-folded script name).
  - `display.rs` — texts that depend on the state (masked amounts, profit
    and loss, footer, masked secrets).
  - `api.rs` — headers, endpoints and the portfolio query sent to the
    service.
  - `laws.rs` — properties across transitions (consistency is kept by every
    transition and lets every key be taken, toggles undo themselves, moves
    stay on the page, ...).
- `app/` — the program: HTTP and JSON (reqwest, serde_json), the SQLite
  account store (rusqlite), drawing (ratatui), keys and the main loop
  (crossterm), threads and clocks.
- `tests/` — tests of the library.
