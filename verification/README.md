# collector

On-premises identity collector: reads users and their groups from Active
Directory (or OpenLDAP), keeps a local catalog and sync cursor, and serves a
localhost admin UI.

## Layout

- `src/` — the verified library (Verus).
  - `ad/mapper.rs` — LDAP entries to catalog events, CN parsing of `memberOf`,
    search filters (with RFC 4515 escaping) and the sync high-water mark.
  - `ad/client.rs` — connection-test report, sample users, paging of searches.
  - `ad/sync.rs` — one sync run as a state machine (cursor, search, persist, report).
  - `config.rs` — configuration model, defaults, validation, redaction.
  - `events.rs` — catalog and session events shared with the server.
  - `store.rs`, `http.rs`, `logging.rs`, `service.rs` — the decisions behind
    the catalog store, the admin API, log setup and the service lifecycle.
  - `text.rs` — character-level string helpers.
- `app/` — the program around it: CLI, YAML loading, LDAP and SQLite I/O,
  the axum server, tracing and the Windows service.
- `tests/` — tests of the library on concrete values.
