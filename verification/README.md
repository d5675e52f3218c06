# resource-monitor

A terminal resource monitor for Linux, split into a verified library and a
thin program around it.

- `src/` is the library, checked by Verus:
  - `app.rs`: the monitor's state (`App`), its refresh from a system
    snapshot, and the state machine that the keys drive (`handle_key`),
    each specified over `AppView`;
  - `process.rs`: process rows, their owners, the descending sort and the
    name-or-PID filter;
  - `cli.rs`: the command-line options;
  - `history.rs`: bounded reading histories and chart points;
  - `system.rs`: CPU cache, governor, sensor and address texts, export path;
  - `view.rs`: colours with the 256-colour fallback, titles, popups, the
    CPU grid and the popup area;
  - `text.rs`: numerals, parsing, trimming and searching of text;
  - `laws.rs`: properties over several operations (invariants kept by
    every key, the Tab cycle, type-then-erase, kill confirmation, filter
    membership, an empty query showing every row, a longer ASCII query
    never adding rows, history bound, interval floor).
- `app/` is the program: sysinfo readings, float rates and percentages,
  file I/O, and drawing with ratatui and crossterm.
- `tests/` exercise the library on concrete values.
