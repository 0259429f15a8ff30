# openfi_proto

The decision logic of a captive-portal server for an openNDS gateway, written
in Verus and verified.

- `src/` is the library. `table` holds a table keyed by MAC address (the open
  connections and their seconds); `client_timer` the timer's tick and the
  reconciliation with the gateway's client list; `access` requests for access,
  pauses, administrator checks and account data; `credits` purchases and code
  redemption; `codes` code generation and listing; `extensions` the rules on a
  file path's text and its media type; `responders` entity tags; `laws` the
  properties that hold across these functions.
- `app/` is the server around it: HTTP endpoints, sessions, the store, the
  gateway's command-line tool, files on disk, the tables and seed rows
  created at start, and the background loops.
- `tests/` runs the library on concrete values.
