# unify

Joins the text files of a project into one document (plain text, markdown, XML or JSON),
choosing files by gitignore-style patterns from a layered configuration.

- `src/` — the verified library:
  - `config.rs` — configuration layers, their merge and resolution, language detection,
    config templates;
  - `presets.rs` — built-in language presets, aliases, the preset listing;
  - `render.rs` — code fences, template expansion, table of contents, documents;
  - `patterns.rs` — include and ignore patterns combined by gitignore rules (the last
    matching ignore pattern decides; `!p` only un-ignores), each glob matched by the
    `ignore` crate's gitignore matcher;
  - `walk.rs` — binary detection, the per-entry file filter;
  - `text.rs`, `paths.rs`, `sizes.rs` — text, path (file name, parent, equality, order,
    relative paths) and byte-size primitives;
  - `cli.rs` — the command line as plain values.
- `app/` — the command-line program: argument parsing, file system walk, TOML loading,
  progress display and output.
- `tests/` — tests of the library.
