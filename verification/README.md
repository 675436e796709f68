# herdr-kiosk

A terminal picker for repositories, branches and workspaces of herdr.

- `src/` is the library: the pickers as state machines, fuzzy search, key bindings, the
  configuration, what git and herdr print, the state files, and what stands on the screen.
  Verus proves the contracts of its functions; those of the few that call an outside crate or
  std are believed (see below). Handlers are specified by pure functions on the contents of
  the state (`*V` types); the `lemma_*` functions that are public state what holds of the
  library as a whole.
- `app/` is the program around it: terminal, file system, processes, threads, and the formats
  that serde reads and writes. The same executable serves as `herdr-kiosk-workspaces` (the
  workspace switcher), and as `xtask` and `update-readme` (which keep the configuration
  reference up to date).
- `tests/` runs the library, with the outside crates that it calls.

The library asks six crates for what they alone know: `unicode-segmentation`,
`unicode-width`, `fuzzy-matcher`, `serde_json`, `serde_ignored` and `syn`; and std for a few
conversions of texts. What is believed of them stands in the doc comments of the functions that
call them, in `src/text.rs`, `src/fuzzy.rs`, `src/herdr.rs` and `src/source.rs`.
