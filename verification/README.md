# swarm

A multi-agent orchestration framework whose core is written in Verus: the
task model and its lifecycle, the priority queue and scheduler, agent
registry and supervision, policies and role-based access control, plugin
manifests and the plugin host's lifecycle, memory with retention and
redaction, personality profiles, learning outputs and their review, and the
decisions behind the command-line interface. Each public function states
what it returns or changes in `requires` / `ensures`, and Verus proves it.

## Layout

- `src/` — the verified library. Contracts are written over views (`@`)
  and spec functions; laws that relate several functions are public proof
  functions (their names start with `lemma_`). Calls into outside crates
  (`dashmap`, `serde_json`, `uuid`, `chrono`, `semver`) go through small
  trusted wrappers whose doc comments say what they claim.
- `tests/` — tests of the library on concrete values.
- `app/` — the program around the library: argument parsing, files, the
  async runtime, the WebAssembly plugin runtime and self-update downloads.
  It hands the library plain values and acts on what comes back.
