# podman_lens

A verified library for reading a Podman service's resources and planning deployments against
it, without ever changing the service.

- `src/` is the library, written in Verus: every function carries a contract that the verifier
  proves. The acquisition state machine (`sequence`) decides the probe, list, and inspect
  requests and what each answer yields; `decode` and `acquisition` turn Libpod JSON into an
  inventory; `discovery` groups resources; `planner` validates intent and orders operations;
  `render` and `artifact` describe a plan as CLI arguments, Libpod requests, a review script,
  and artifact records.
- `app/` is ordinary Rust around it: the Unix-socket transport, the loop that performs the
  requests the state machine asks for, and the serde reading and writing of catalogue and
  artifact documents.
- `tests/` exercises the library on concrete values.

Calls into `serde_json`, `semver`, and `url` stand behind small trusted wrappers whose doc
comments say what their contracts claim of those crates.
