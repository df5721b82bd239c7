# BetterMacro

BetterMacro records keyboard, pointer and scroll input on macOS into an
editable macro timeline and replays it, finding clicked UI elements again
through the Accessibility tree instead of trusting old screen coordinates.

## Layout

- `src/` — the verified library (Verus):
  - `model.rs` — the versioned macro schema.
  - `recorder.rs` — how observed input becomes timeline actions: click,
    drag and multi-click detection, approach paths, movement thinning, text
    grouping and scroll merging.
  - `semantic.rs` — scoring Accessibility candidates against a recorded
    target, the bounded tree search and its acceptance rule, and the walk
    that records an element's tree path.
  - `clicks.rs` — how a semantic click or text entry is delivered, or
    refused, on playback.
  - `playback.rs` — the playback run (which action next, progress, keys to
    release), path timing, click and shortcut event sequences.
  - `automation.rs` — the engine's modes (idle, recording, playing),
    permissions and pointer rates.
  - `storage.rs` — macro ids and file names, schema checks, and the library
    listing (newest first, with warnings).
  - `text.rs`, `processes.rs` — text helpers, application bundle paths and
    process-listing lookups.
- `tests/` — tests of the library.
- `app/` — the Tauri application around it: the macOS event tap,
  Accessibility and CoreGraphics calls, file storage, JSON (de)serialisation
  and the editor's commands.

Screen coordinates are carried in the library as the bit patterns of their
floating-point values; computations on them stay in `app/`.
