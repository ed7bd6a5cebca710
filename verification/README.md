# io_at

Reading and writing data at an offset.

- `src/` is the verified library. `ReadAt` and `WriteAt` model the target of
  positioned access as a sequence of bytes; `bytes.rs` defines what a read
  reaches (`span`, `window`) and what a write leaves (`overwrite`). Slices and
  vectors implement both traits exactly and say so with `obeys_read_view` /
  `obeys_write_view`; `Take`, `BlockLimitWrite` and `Cursor` clip, split or
  sequence accesses to another implementation. Each implementation says in
  `reads_as` / `writes_as` which outcomes its calls have, so an adaptor's
  contract names the outcome of the call it passes on. The default
  `write_all_at` is described call by call by `write_all_run` in
  `write_all.rs`, whose steps are decided by `write_all_step`.
  `laws.rs` states the properties that hold across calls.
- `app/` holds what touches the operating system: files read and written with
  `pread`/`pwrite` (or overlapped Windows calls), `LockedSeek` for any
  seekable stream, and the standard `Read`/`Write` traits on a cursor.
- `tests/` runs the library on concrete buffers.
