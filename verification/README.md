# vhs_86

A retro terminal file manager with synthwave colours, written as a Verus
library with a thin terminal program around it.

## Layout

- `src/` — the verified library. Each function states in `requires` /
  `ensures` what it does, as far as the results of outside calls (time, the
  file system, colours from `syntect`) let it be stated, and Verus proves it.
  It holds the browser state machine (what each key does, which outside work
  a step asks for), listing order, archive listings and zip extraction plans
  read from archive bytes (`zip`, `tar`, `flate2`), image decoding for
  previews (`image`), batch selection and renaming patterns, permission
  modes, git status bookkeeping, disk usage ranking, key bindings, the
  configuration file text, themes and colours, previews (text fitting, syntax
  highlighting through `syntect`, the Kitty image protocol), search result
  parsing, plugin bookkeeping, crash reports and timing.
  Laws that relate several operations are public proof functions named
  `law_*`.
- `app/` — the program: terminal drawing (`ratatui`), reading keys, the file
  system, creating archives and unpacking tar archives, `git2`, reading and writing the
  configuration (`serde`, `toml`), ripgrep, and the WASM plugin host. It asks
  the library what to do and does the outside work.
- `tests/` — tests of the library on concrete values.

Calls into outside crates that the library makes go through small trusted
wrappers, each with a doc comment saying what its contract claims.
