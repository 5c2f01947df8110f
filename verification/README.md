# picnest

The verified core of PicNest, a desktop photo library for Windows: it
indexes the pictures of monitored folders, finds duplicates, searches them,
and archives them by capture month into a library folder without ever
losing a verified copy.

- `src/` is the library, written for Verus. Every function states its result
  in `requires`/`ensures` clauses over mathematical models (`Seq`, `Set`,
  `int`), and the public `law_*` proof functions state the properties that
  hold across calls: the move protocols never delete the last verified copy,
  a removal preview predicts exactly what a removal deletes, scan counters
  stay consistent, tag lists are clean and normalized once for all.
  - `paths`, `text`, `numbers`: Windows path rules and string helpers.
  - `library`, `images`, `metadata`, `phash`, `scan`: indexing and scanning;
    pictures are decoded, scaled and encoded from their bytes, and the EXIF
    block is read from them, through trusted calls whose results are named.
  - `query`: the SQL of listings and full-text search.
  - `sources`: monitored folders and their removal.
  - `organize`, `moves`: archive plans and the move, resume, rollback and
    recovery protocols as decision functions.
  - `ai`, `tags`, `albums`, `models`, `diagnostics`, `error`: the remaining
    rules of the commands.
  - `wrappers`: the calls into `std` and outside crates whose results the
    contracts name or, where a few lines suffice, state.
- `tests/` runs the library on concrete cases.
- `app/` is the unverified shell: SQLite storage, the file system, folder
  watching, the credential store, the AI service and the command handlers.
