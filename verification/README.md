# o3_manager

A terminal manager of one-on-one meetings ("O3s"). Meetings belong to a direct report,
may be dated on one of the Thursdays around the current week, and hold entries:
feedback (positive or negative) or topics, each with an optional output.

- `src/` is the verified library: the data model, the handling of every key on every
  screen (as a relation from state and key to new state and action), the listing
  order, the calendar conversion, text editing at a byte cursor, and the texts of the
  screens. `src/laws.rs` proves what every key press keeps.
- `app/` is the program: it loads and saves the store as JSON in the home directory,
  reads keys with crossterm, asks the library what to do, and draws with ratatui.
- `tests/` runs the library on concrete values.
