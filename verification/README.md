# control_plane

The control plane of an AI-agent sandbox: it creates Docker containers that run
agents, records them in SQLite, and serves a REST API guarded by a bearer token.

- `src/` is a Verus library holding the plane's decisions, each with a contract:
  request authorization (`auth`), settings and CORS (`config`), the container
  model and statistics (`models`), container creation plans and environments
  (`containers`), the SQL of container listings (`db`), resource limits and
  container commands (`docker`), skill names and manifests (`skills`), skill
  archive unpacking (`archive`), the setup wizard (`setup`) and error reporting
  (`error`), over character-level text helpers (`text`).
- `app/` is the server around it: axum routing and middleware, sqlx storage,
  bollard Docker calls, file writes and JSON shapes.
- `tests/` runs the library on concrete values.
