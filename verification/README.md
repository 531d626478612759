# orchestrator

The domain model and store logic of a terminal-session orchestrator:
workspaces hold projects, projects hold sessions, sessions hold surfaces
(terminal or diff panes backed by PTYs in a daemon).

`src/` is verified with Verus. Every public function states what it returns
or changes, over views of its types (`Seq`, `Map`, plain integers and
strings), and the laws that span several operations are proof functions.

- `entities/` — entity types, ids, stored names, lifecycle guards, and the
  declarative state model of the four lifecycles.
- `memory/` — the in-memory store: workspaces, projects, sessions, surfaces,
  settings, the command library, launch templates, notification history;
  `memory/properties.rs` holds its cross-operation laws.
- `tree/` — the decisions of the file-tree store: slugs and collision
  suffixes, ISO-8601 timestamps, sibling order, archive paths, the id index,
  surface bindings of a session layout, and the read cache.
- `config.rs` — where the config stores keep their files and what they
  compute from them (merged and resolved settings, profile and theme order).
- `rows.rs` — how stored rows decode and what a listing page returns.
- `runtime.rs` — the in-memory surface runtime and the proxy state machine of
  a daemon-backed surface.
- `health.rs`, `schema.rs`, `error.rs`, `strmap.rs`, `sort.rs`, `text.rs` —
  service health, schema planning, errors, and the small verified utilities
  the rest is built on.
- Calls into std, `uuid` and `serde_json` go through small trusted wrappers in
  `clock.rs`, `paths.rs`, `json.rs`, `strmap.rs`, `text.rs` and
  `entities/mod.rs`; the JSON text of the config and row columns is read and
  written there, and the stores decide on the maps it stands for.

`app/` is ordinary Rust around the library: the file-tree store, the SQLite
store and its sqlx repositories, the config files, the async runtime port and
the event sink contracts. It performs the I/O and asks the library for every
decision.

`tests/` exercises the library on concrete values.
