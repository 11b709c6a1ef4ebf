# krabmaga A5 grid

A sparse, double-buffered object grid indexed by A5 pentagonal cells, for
agent-based models, verified with Verus.

- `src/engine/fields/a5grid.rs`: `SparseA5Grid`, its model `GridView` and the
  contracts of every operation.
- `src/engine/fields/buffer.rs`: one buffer (object → cell, cell → objects),
  its consistency invariant and the proofs that placing and removing keep it.
- `src/engine/fields/laws.rs`: properties across operations (read after
  update, idempotent placement, removal undoing placement, ...).
- `src/engine/fields/index.rs`, `a5_cells.rs`: the trusted wrappers around
  `hashbrown::HashMap` and the `a5` crate.
- `src/engine/fields/decimal.rs`: decimal rendering used by the display text.
- `app/`: the floating-point coordinate conversions and a `Display` adaptor.

Objects are identified by `u64` ids.
