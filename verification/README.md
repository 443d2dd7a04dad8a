# cling

A clipboard manager for Linux: full-fidelity clipboard history (text, rich text,
images, files and any other MIME type) in an encrypted database, with full-text
search, pinning and pruning, a capture policy, and a service on the session bus
that a popup, a command line client and a GNOME Shell extension talk to.

The library under `src/` is verified with Verus. Every function states what it
returns or changes, and the laws that tie the operations together are proof
functions: what is captured is read back byte for byte, a capture that repeats
the newest entry counts a use, pinned entries survive pruning, a closed store
answers every request with `Locked`, and so on. Most of them are in
`src/laws.rs`. On a database that the library created, preparing a connection and
every operation fail only where the database reports an error.

## What is trusted

* `rusqlite`: the statements of `src/sql.rs` do and answer what that module says,
  on a database that the library created and that nobody else writes. A database
  is known to be such a one where it was opened in memory; of a file nothing is
  known in advance, and the contracts hold for it under the same condition.
* `regex`: a compiled pattern remembers its source, and whether it is found in a
  text depends on both alone.
* The standard library: UTF-8 decoding, the Unicode character tables, and the
  clock, of which nothing is claimed.

## Layout

* `src/`: the library.
* `tests/`: its tests.
* `app/`: the programs around it. `main.rs` is the daemon, and the client when it
  is started as `cling-cli`: bus, X server, threads and command line. `show.rs`
  is the popup, a program of its own that needs GTK 4 and libadwaita.
