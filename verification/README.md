# aether_dev

The library behind `adev`, a terminal dashboard for a local development
environment: project inventory with git status, ports, reverse-proxy domains,
container services, database dumps, and the toolchain versions a project runs
with.

- `src/` is the library. What it decides, parses and prints is stated as a
  contract over sequences of characters and plain records, and proved by Verus.
- `tests/` runs the library against real inputs and against the crates it calls.
- `app/` is the program: files, processes, threads, HTTP and the terminal. It
  asks the machine, hands the answers to the library and carries out what comes
  back. Drawing and the wording of a few progress lines are its own.

What is trusted rather than proved is marked where it stands: reading the
command line (`src/arguments.rs`), JSON (`src/json.rs`), TOML
(`src/sections.rs`), version requirements (`src/toolchain.rs`) and bytes
(`src/logs.rs`), writing TOML (`src/routes.rs`), packing a tar archive
(`src/backup.rs`), unpacking a compressed dump (`src/db.rs`), and quoting a text
(`src/text.rs`).
