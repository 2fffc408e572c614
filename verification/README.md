# suvarix

The verified core of Suvarix, a local-first personal-finance tracker, with
the application code around it.

- `src/` is the library, verified with Verus: every public function states
  what it returns in its contract, and the library's laws (the merge clock
  order, the receive rule, duplicate cleanup, dismissals, notification
  memory, the calendar's date stepping, SQL quoting) are proof functions.
  Calls into `aes-gcm`, `pbkdf2`, `sha2`, `hex`, `base64`, `rand`, `chrono`
  and `csv` go through small trusted wrappers whose contracts say what the
  crates' documentation promises.
- `app/` holds what the library does not: the SQLite database, files, the
  clock-driven background checks, and the computations on money amounts,
  which use floating point.
- `tests/` runs the library on concrete values.
