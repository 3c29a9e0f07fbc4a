# dopper

A secrets manager for the command line: projects, their environments
(`dev`, `prod`, ...), secrets per environment, directories linked to projects,
and an active environment per project. Data lives in an encrypted SQLite file.

Layout:

- `src/` — the library, verified with Verus. The store (`model.rs`, `db.rs`)
  keeps the tables in memory with the schema's constraints as an invariant;
  `laws.rs` proves what holds across operations (a secret read back after a
  write, cascading deletes, default environments, restore of a dump, ...).
  Around it: effective environment variables (`env_vars.rs`), key derivation
  and key material (`security.rs`), keychain caching (`keychain.rs`), clipboard
  helper selection (`clipboard.rs`), dump path (`config.rs`), prompt parsing
  (`prompts.rs`), timestamps (`clock.rs`), encodings (`encoding.rs`),
  migration integrity (`integrity.rs`) and command planning (`commands.rs`).
- `app/` — the command-line program: argument parsing, the SQLite file,
  prompts, the clipboard process, serialisation.
- `tests/` — tests of the library.
