# codexhalo

The logic of the CodexHalo desktop HUD, verified with Verus: reading Codex rollout records
into per-model token usage for a day, pricing that usage, normalising quota windows,
migrating settings, placing the HUD window on the displays, and the decisions of the
desktop shell (consent, refresh caching, startup), and the order in which the Codex
executable is looked for on Windows, as a conversation with the file system
(`src/discovery.rs`).

- `src/` is the verified library. Each module states its behaviour over spec functions and
  views; the laws of the library are public proof functions named `law_*`.
- `tests/` runs the library on concrete values.
- `app/` is the unverified shell around it: file and process I/O, the Codex app-server
  session, writing settings as JSON, and the floating-point window layout. Reading JSON
  (rollout lines, stored settings, app-server replies) goes through the library, which
  calls `serde_json` behind stated wrappers.

The desktop window itself (the Tauri builder, its commands, tray and global shortcut, and
moving the native window between surfaces) is not part of this crate: the Tauri crates are
not among its dependencies. What those commands decide is in `src/control.rs` and
`src/geometry.rs`, and `app/desktop.rs` and `app/layout.rs` hold the state and the
floating-point layout they would drive.
