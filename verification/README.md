# stateless_architecture

A state blob and the stateless core loop around it, written in Verus.

A blob is the single source of truth of a system: a versioned JSON envelope
with an application payload. Services transform a blob into a new blob;
renderers turn a blob into text; the lifecycle hibernates a blob (seals its
payload with a passphrase) and restores it progressively, stage by stage.

Layout:

- `src/json.rs` – the JSON value model, its compact text, member lookup and
  insertion (with the read-after-write law).
- `src/first.rs` – the first element of a sequence that satisfies a predicate,
  the lookup rule of every keyed table.
- `src/calendar.rs` – the ISO 8601 UTC date-time of a clock reading, and the
  system clock.
- `src/digest.rs` – SHA-256 (`sha2`) and hexadecimal text (`hex`).
- `src/state_blob.rs` – blobs: JSON text and bytes, content hash, lineage,
  validation, and the passphrase seal (with the law that unsealing undoes
  sealing).
- `src/lifecycle.rs` – the lifecycle state machine.
- `src/progressive.rs` – staged restoration.
- `src/renderer.rs` – HTML and plain-text renderers.
- `src/service_bus.rs`, `src/bus.rs` – services, the registry, capability
  tokens (scope, invocation and byte limits, expiry) and endpoint resolution
  (local, then mesh, then cloud).
- `src/mesh.rs` – the mesh operation envelope and an in-memory mesh.
- `app/lib.rs` – reading blobs back from JSON bytes with `serde_json`,
  restoring a hibernated blob, and the JavaScript-facing entry points.
