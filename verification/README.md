# cortex

Verified state transitions of the cortex runtime modules.

- `src/primitives.rs` – accounts, block numbers, hashes, origins, `ensure_signed`, and the
  identifier counters (frame_support's `Incrementable` for `u32`).
- `src/keyed_map.rs` – the contents of a storage map: a list of entries with distinct keys,
  viewed as a `Map`.
- `src/claims.rs` – proof of existence: create and revoke claims.
- `src/vision.rs` – percepts, cognitos and the connections between them.
- `src/analytics.rs` – the analytics category in the JSON answer of the analysis service
  (parsed by `lite_json`).
- `src/guardian.rs` – payments for analytics and the off-chain worker's sending decisions.

Each call is stated as a spec function from the module's state to its next state and
result; the public proof functions state what holds across calls.

`app/lib.rs` holds what needs the chain's runtime: the HTTP request and local storage of
the off-chain worker, its signing keys, and the SCALE-encoded copies of the stored records.
