# book_core

Tools for tidying a library of audiobooks, ebooks and comics: scan a tree,
infer author and title from names and folders, read audio tags, merge MP3
chapters into one M4B with ffmpeg, deduplicate by content hash, and copy
books into an `Author/Title` structure with verification.

## Layout

- `src/` — the library, verified with Verus. Each operation states its
  result in its contract; `src/laws.rs` proves properties that span
  operations (tallied statistics, dry runs copy nothing, deduplication keeps
  one record per author, every file lands in exactly one book unit, …).
  Calls into `regex`, `glob`, `blake3`, `uuid` and `std::path` stand behind
  small trusted wrappers whose contracts name what the call returns.
- `tests/` — tests of the library on concrete values.
- `app/` — the command-line program: argument parsing, file-system walks,
  SQLite registry and author database, tag reading with `lofty`, running
  ffmpeg, parallel merging, watching a folder, and JSON/TOML files.
