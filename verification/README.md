# m64prs

Verified logic of the m64prs emulator tools, written in Verus.

- `src/socket_id.rs`: socket identifiers of the TAS-input bridge
  (`tasinput-` and the zero-padded upper-case hexadecimal form of a random
  128-bit value), with the proof that distinct values give distinct
  identifiers; the endpoint's socket, which keeps the identifier together
  with the local-socket name converted from it.
- `src/requests.rs`: the bridge's request numbering and reply routing, as a
  step function from loop event to loop action, with its laws over single
  steps and over whole runs.
- `src/vidext.rs`: the truncating copy that answers the core's list queries.
- `src/native_build.rs`: the rerun directives (all of them, in order) and the
  MSVC target choice of the native build.
- `src/session.rs`: the steps of the encode test session.
- `app/`: the program and the parts that do I/O, spawn threads, load
  libraries or use GTK, calling the library for their decisions.
- `tests/`: tests of the library on concrete values.
