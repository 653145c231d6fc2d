# hyfetch backend helpers

The part of hyfetch that deals with its backends (neofetch, fastfetch,
macchina), written in Verus.

- `src/` is the verified library:
  - `ascii.rs`: the size of neofetch ascii art, color codes ignored;
  - `neofetch_util.rs`: the choice prompt, the backend invocations that
    hyfetch carries out (`run`, the distro-name query, the neofetch ascii
    query) and the reading of what the backends print;
  - `theme.rs`: the macchina theme documents;
  - `text.rs`: character-level text operations (`trim`, `lines`, `replace`,
    `join`, ...) with exact specifications;
  - `types.rs`: the data types;
  - `external.rs`: the trusted calls into std and the outside crates;
  - `laws.rs`: properties that span several functions.
- `app/` carries the invocations out: it prompts, edits `PATH`, finds the
  backends, writes the temporary files and runs the processes.
- `tests/` runs the library on concrete inputs.
