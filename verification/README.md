# operune_application

The decisions of a component host, verified with Verus: installing, upgrading and
rolling back WebAssembly components; reading what their guests return; putting
components together; running their timers and events; and guarding their state,
configuration and secrets.

The library performs no I/O. Work that reaches storage, the audit log, a guest or a
clock is described as a value that the host carries out; its outcome comes back as
a value. So every decision can be stated and proved for every outcome.

- `src/` is the library.
  - `install*` is the install pipeline, a state machine, with its laws.
  - `migration`, `lifecycle`, `composition` and `graph` are the other long-running
    changes.
  - `scheduler`, `timers` and `event` keep timers and events within their limits.
  - `config`, `secret`, `secret_bytes` and `stateful_imports` serve a guest's
    configuration, secrets and state.
  - `contract`, `val`, `guest`, `web_guest`, `web_app_guest` and `runtime` read and
    build the values that cross the boundary to a guest; `surface` reads a binary's
    imports and exports with wasmtime.
  - `policies` and `web_quota` decide what is allowed, and `active` holds what is in
    service.
- `tests/` runs the library, over hosts in memory.
- `app/` is a host around the library, on tokio and wasmtime.

Laws that relate several functions are public proof functions named `law_..`.
