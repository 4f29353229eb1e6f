# Stickies

A fast, local scratchpad that lives on the edge of a Linux desktop.

- `src/` is the verified library:
  - `app.rs`: notes, the edge deck's state and `AppState::dispatch`, specified
    by `dispatch_spec` over `AppStateView`.
  - `deck_laws.rs`: properties of every action (pinned notes stay first,
    identifiers stay unique, the session stays consistent, unsaved edits block
    session changes, refused actions change nothing, ...).
  - `storage.rs`: how notes are stored in rows, the statements the store runs
    and how their outcome is read.
  - `clock.rs`: the store's millisecond timestamps.
  - `listing.rs`: titles, one-line previews, the status line and the actions
    offered in the all-notes window.
  - `edge.rs`: the starter notes and when the deck's timers collapse it.
  - `config.rs`: the configured screen edge.
- `app/` is the GTK program around it: the layer-shell edge surface, the
  all-notes window, the SQLite store, the configuration file and the autostart
  entry.
- `tests/` runs the library on concrete decks, rows and texts.
