# lau-construct-integration

Building blocks of an agent platform, with the logic verified by Verus.

`src/` is the verified library:

- `ensign` — onboarding of an ensign through six phases, and its baton.
- `tick` — a task queue drained highest priority first, keeping the order
  of tasks of equal priority, with an execution log.
- `sandbox` — a universe (a directory tree) and a zero-claw agent that may
  reach only paths inside it.
- `provenance` — an agent's provenance ledger and the line framing of the
  ledger file (one JSON document per line).
- `port` — a message inbox and a table of routes.
- `circuit` — the status bookkeeping of a monitoring circuit.
- `provider` — the tokens and reply text of a mock completion request.
- `text` — decimal rendering of small integers.

`app/` is the unverified rest: the SQLite tile store, the floating-point
budget ledger, gravity routing and circuit thresholds, correlation
detection, serde forms of the library's types, and the disk side of the
ledger and the sandbox.
