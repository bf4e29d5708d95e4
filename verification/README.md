# ui_notes

Review notes for Omarchy: typed, dictated and captured notes on a user
interface, kept per project as JSON records and rendered to `notes.md`.

- `src/` is the library, verified with Verus: the note records and their
  edits, the Markdown rendering, keyboard shortcut parsing, session and
  project bookkeeping, the command line, and the terminal theme rules.
  JSON and TOML text is read into the library's `Node` through `serde_json`
  and `toml` (`src/json_read.rs`, `src/toml_read.rs`). `src/laws.rs` and
  `src/laws_notes.rs` state the properties that hold across operations.
- `app/` is the `omatate` program around it (started as `omatate-panel` it
  summons the shell plugin): files, the lock, helper
  programs (the region picker, the screenshot tool, the recorder, the
  analysis CLI), the panel socket and the backend loop, and the color
  arithmetic of the theme.
- `tests/` exercises the library on concrete values.
