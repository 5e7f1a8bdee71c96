# astra-creator

A terminal tool that defines Astra chat rooms, renders the files that run each
room in its own Docker container (`astra.toml`, `docker-compose.yml`,
`Caddyfile`) and drives their life cycle.

## Layout

- `src/` — the library, verified with Verus:
  - `text.rs`, `slug.rs`: character-level helpers and the room-id slug;
  - `model.rs`: rooms and projects, with the uniqueness rules on ids, ports
    and domains;
  - `generate.rs`: the texts of `astra.toml`, `docker-compose.yml` and the
    `Caddyfile`;
  - `toml_doc.rs`, `reconcile.rs`: keeping an existing `astra.toml` in step
    with the room, key by key, through `toml_edit`;
  - `json.rs`, `docker.rs`: the arguments given to `docker` and the reading of
    what it answers;
  - `tui.rs`: the interface as a state machine from key to next state and the
    outside work it asks for.
- `app/` — the program: terminal input and drawing, the state file, the files
  on disk and the `docker` processes.
- `tests/` — tests of the library.
