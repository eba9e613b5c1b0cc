# zfskit

Drives OpenZFS's `zfs(8)` and `zpool(8)` tools: validated names, argument
lists for every command, the classification of their stderr, and the reading
of what they print (JSON reports, `zfs send -nvP` estimates, resume-token
nvlists, `zfs holds` tables, `zpool import` discovery, arcstats).

- `src/` is the library, verified with Verus. Each command's argument list
  is a function with a contract stating the exact list; each reader states
  exactly what it returns for every input, errors included.
- `app/` is the I/O around it: running commands locally, over `ssh`, or
  from recorded fixtures; decoding JSON with serde; the async operations and
  the `Zfs`/`Pool`/`Dataset`/`Snapshot`/`Bookmark` handles.
- `tests/` runs the library on concrete inputs.
