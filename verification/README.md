# Dot-To-Dot Studio

A desktop editor for dot-to-dot pictures: import an image, place numbered
points in named sequences, and export the points as CSV or the picture with
its sequences drawn on it.

## Layout

- `src/` — the verified library (Verus).
  - `editor.rs`: sequences, selection, point numbering and the bounded undo
    history, with exact contracts for every editing command.
  - `export_logic.rs`: file-name sanitizing, CSV text, overlay-content
    checks, the overlay drawing plan, image decoding, the RGBA raster and
    the filled-circle primitive.
  - `export_dialog.rs`: the export dialog's settings and the decision behind
    each export (covered sequences, refusal messages, file names).
  - `csv_shape.rs`: record and field counting of CSV text (line breaks and
    commas outside quoted fields); every exported point is one record of
    seven fields.
  - `commands.rs`: which project commands may run with or without an image.
  - `markdown.rs`: the About text's line kinds and inline emphasis runs.
  - `storage.rs`: the schema upgrades of older project files.
  - `status.rs`: the status-bar texts of the editor commands.
  - `text.rs`, `model.rs`: shared character helpers, plain data and the
    stored form of colors.
  - `laws.rs`: properties that relate several operations (undo restores the
    state before an edit, renumbering counts up, sanitizing is stable, …).
- `tests/` — tests of the library on concrete values.
- `app/` — the egui/eframe window, file dialogs, SQLite I/O and the
  floating-point canvas geometry, calling into the library.
