# sovereign

A proof-carrying runtime for local-first systems, verified with Verus.

Every computation ends in one of three verdicts (commit, ghost question, reject); knowledge is
addressed by content and kept at a heat (absent, cold, warm, hot); workers yield on cold memory
instead of blocking; every step leaves a receipt in a hash-chained transcript sealed by a proof
pack; the manager is an event loop with typed inputs and outputs; nodes exchange signed
pointers over proofs, and forks are explicit.

Layout of `src/`:

- `ids`, `text`: identifiers, canonical joining and hashing (SHA-256 through `sha2`, hex through `hex`), text order.
- `decision`: the frugal decision over evidence, budget and score.
- `keyed_map`: an ordered map keyed by text, with distinct keys.
- `storage`: atoms, epistemic heat, the atom space.
- `worker`: the worker ABI and its host environment.
- `transcript`, `session`: receipts, the hash-chained transcript, proof packs.
- `runtime`: the contract trait, the runtime that runs workers, and the `run` loop.
- `federation`: pointer policies and the pointer validator.
- `manager`: the manager plane.
- `manager_app`: the application's logic (case runs, witnesses, heat controls, replay, federation).
- `sovereign_demo`: one sovereign case end to end.

`app/main.rs` is the command line shell (printing, argument handling, and the floating-point
silicon check). `tests/` holds the scenarios.
