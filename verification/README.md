# kitsune_types

Verified core types of the kitsune peer-to-peer layer and of holochain clone
cells, written in Verus.

- `src/proc_count.rs`: the elapsed time between two process tick counts.
- `src/error.rs`: `KitsuneErrorKind` and `KitsuneError`, their equality,
  display texts and conversions.
- `src/cert.rs`, `src/cert_order.rs`: 32 byte certificate digests, `Tx2Cert`
  with its base64 text and nickname, equality and order.
- `src/cell.rs`, `src/decimal.rs`: clone ids (`role.index`) and the decimal
  text of `u32` values.
- `app/`: the process clock, boxed futures, `CellId` over holo_hash values,
  and copies of the library's types with serde, thiserror and formatting
  impls.
