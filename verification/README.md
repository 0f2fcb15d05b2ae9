# vectordb

A small vector database, verified with Verus.

- `src/` is the verified library: the storage engines, the flat and k-d tree
  indexes, the indexer's k-d tree with its rebuilds and the commands that
  reach it over a named pipe (and their framing), record keys (SHA-256 in
  hex), the console's menus, and the state machine behind the terminal front
  end, which asks its caller for what only the disk can tell.
- `app/` holds the programs: the terminal front end (ratatui), the console,
  the indexer thread, and everything that computes on floats (vector
  components are kept in the library as order keys of their `f32` values).
- `tests/` exercises the library.

An HNSW index is not part of the library: every step of one (layer search,
insertion, neighbour linking) is decided by float distance comparisons,
which stay outside the verified code.
