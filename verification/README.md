# release_manager

A desktop manager for software installed from GitHub releases: it keeps a list of
installed programs with their versions, tags and paths, checks GitHub for newer
releases, and recommends the release asset that fits Windows best.

- `src/` is the verified library (Verus): version ordering, asset ranking, tag
  parsing, repository-URL parsing, reading the file version out of an executable's
  bytes, the stored forms of entries and settings, and the
  state and decisions of every window (add, edit, settings, tag groups, main list).
- `app/` is the program around it: the egui windows, SQLite storage, HTTP requests
  to the GitHub API, file-system search and the clock. It hands the library plain
  values and draws what the library decides.
- `tests/` exercises the library on concrete values.
