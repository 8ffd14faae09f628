# alphatheta_connect

A verified library for the AlphaTheta / Pioneer PRO DJ LINK protocol:
control and announce packets, the rekordbox `export.pdb` database and
analysis files (`.DAT`, `.EXT`, `.2EX`), the OneLibrary (`exportLibrary.db`)
rows, audio tag parsers (ID3, FLAC, MP4, AIFF) for metadata and artwork, and
the mix status state machine that turns player states into "now playing"
events.

## Layout

- `src/` — the library, written in Verus. Every function carries a contract
  stated over mathematical models (`Seq`, `Map`, spec functions), and Verus
  proves it. Public `law_*` proof functions state properties that relate
  several operations (for instance, that a track is not reported as now
  playing twice on the same deck, or that switching a slot's database twice
  restores it).
- `app/` — plain Rust around the library: reading the OneLibrary SQLite file
  with `rusqlite`, logging through `tracing`, serde forms of the artwork
  types, and the tempo arithmetic that is done in floating point.
- `tests/` — tests run against the compiled library.

Calls into outside crates (`flate2`, `sha2`, `rand`) and into a few std
string functions go through small trusted wrappers whose contracts state
what those functions document.
