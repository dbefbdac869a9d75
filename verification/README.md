# astrbot_launcher

A headless manager for AstrBot instances: it creates, deploys, starts,
stops, upgrades and backs up instances, manages the runtime components
(Python, Node.js, uv) and serves everything over an HTTP API with a
server-sent event stream.

## Layout

- `src/` — the library, verified with Verus. It holds the decisions and
  data of the manager: request parsing, the per-instance process state
  machine, its liveness monitor and the graceful-shutdown sequence, proxy
  and mirror settings, manifest bookkeeping, archive entry checks, backup selection and routing, version
  ordering, path confinement, and the texts of errors, shims and commands.
  Calls into outside crates (`semver`, `uuid`, `toml`, `url`, `serde_json`)
  sit behind small trusted wrappers whose contracts are stated next to them.
- `tests/` — tests of the library's public functions.
- `app/` — the program around the library: the axum server, file, network
  and process I/O, and the on-disk state. It calls the library for every
  decision and does the work the library cannot.
