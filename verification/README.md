# graft-sqlite

The repository commands of Graft for SQLite databases, with their behaviour stated in contracts
and proved by Verus.

A session names a command the way a pragma does (`graft_status`, `graft_json_diff = "--rows main"`).
The library reads the command, decides what it means and what it may do, and words the answer. It
also holds the formats and the rules that commands share: page deltas between database images, row
diffs and their cursors, merge analysis and the resolution of conflicts, staging, restoring and
checking out paths, the walk over published commits and the coverage of their snapshots.

## Layout

- `src/` is the library. Data types that hold text are generic in it, so that the view of a value is
  the same type over `Seq<char>`; contracts speak of views. Properties that span several functions
  are proof functions named `law_..`.
  - Commands: `command`, `parse_paths`, `parse_refs`, `parse_worktree`, `words`, `spec`, `eval`,
    `twins`.
  - Answers: `reply`, `report`, `report_sync`, `answers`, `labels`, `show`, `time`, `document`,
    `document_laws`, `json`.
  - Databases: `image`, `page_delta`, `file_diff`, `row_diff`, `tables`.
  - Worktree: `paths`, `diff`, `status`, `staging`, `checkout`, `restore`, `restore_checks`, `restore_steps`,
    `workspace`, `update`, `session`.
  - Merging: `merge`, `merge_policy`, `auto_merge`, `conflicts`, `conflict_paths`,
    `conflict_report`, `conflict_list`.
  - Shared: `text`, `order`, `number`, `bytes`, `model`, `error`.
  - Storage: `snapshot`, `publish`, `coverage`, `walk`, `remote`, `jobs`.
- `tests/` runs the library on concrete values, and on real databases where a wrapper calls out.
- `app/` performs what the library decides: files, SQLite connections, threads, JSON output. The
  storage engine and the repository format are reached through the trait `Backend`.

## What is trusted

Three crate functions are believed by their contracts: SHA-256 (`sha2`), and parsing and printing
JSON (`serde_json`). `String::push` of the standard library is the fourth.
