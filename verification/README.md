# psikat

A music tracker whose editing logic is a library verified with Verus.

- `src/` — the library, every function with a contract proved by Verus:
  - `project/` — patterns and their cells, the arranger (entries, groups, clones,
    reordering, deleting), the play order, tracks' envelopes and sample helpers, the
    `.psikat` file header, and readers for MOD and XM modules.
  - `app/` — the editor's rules: key bindings and which command a frame of keys asks
    for, cursor movement, block edits and transposition, copy/paste and moving cells by
    columns, arranger drag and drop, the play order list, undo/redo history, scales and
    note entry, and the header's meter settings.
  - `audio/` — the sequencer's row and order steps and pattern snapshots.
  - `editor.rs`, `pattern.rs`, `scale.rs`, `keys.rs`, `synth.rs` — the single-pattern
    editor as a state machine with its own pattern model.
  - `text.rs` — decimal numbers and names as text.
- `app/` — the program around it: the window (eframe), audio output (rodio), WAV export
  (hound), file dialogs (rfd), project files (rmp-serde), and everything that works on
  floating-point samples.
- `tests/` — tests of the library on concrete values.
