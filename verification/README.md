# syncdir

A background folder mirror: a source directory is kept in sync with one or more
destination directories, large files by rewriting only the blocks whose BLAKE3 digest
changed, deleted files by moving them into a dated `.syncdir_archive` on the
destination, with a status icon in the notification area.

## Layout

- `src/` — the library, written in Verus and verified:
  - `path_safety`, `ancestry`, `reparse`: which relative paths may be written, the
    walk that refuses links on the way to a file, and the cache of directories found
    clean;
  - `delta`, `transfer`: block-level delta streaming (the destination ends up equal
    to the source with only the changed or missing blocks written), coalesced writes,
    and the checks around a transfer;
  - `archive`: archive paths and names, the date an entry is known by, and the
    retention pass (age first, then oldest first down to the size limit);
  - `queue`, `state`, `runner`, `reachability`, `context`: the debounced work queue,
    retry backoff, and the per-target worker state machine;
  - `full_scan`, `scan`, `engine`, `mock`: the full-scan coordinator over an abstract
    driver, the decisions of the source tree walk, the engine's decisions per file, and
    in-memory test doubles;
  - `store`: the in-memory cache of file records and block digests;
  - `copy`: the small-file path, a whole-file copy that hashes what it copies, and the
    read-back digest check of write verification;
  - `tray`, `types`, `config`, `error`, `keyed`, `text`, `traits`: status model of the
    tray icon, shared types and helpers.
- `app/` — the executable around the library: file-system I/O, the worker threads, the
  notification-area icon and its event loop.
- `tests/` — tests of the library.
