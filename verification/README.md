# routing_core

A verified routing core for a local AI gateway, written in Verus.

- `src/contract/` is the inbound verification contract: bounded raw requests and their
  sanitizing, the closed route specification registry and exact request binding, the
  canonical proof wires and their decoders, the MAC and digest framing, the per-request
  gates, the one-shot nonce store and the four verification entries (`entry.rs`).
- `classifier.rs`, `snapshot.rs` and `disposition.rs` are the closed request classifier: the
  receiver, the per-request snapshot binding, the protocol normalizer and the local, context
  and bound gates run in that fixed order and yield one of three dispositions.
- The other modules of `src/` hold the stage-first route planner and its immutable
  snapshots, account and credential catalogs, account selectors, credential authorization,
  selection cooldowns, health tracking, the replay gate of a single attempt and the linear
  attempt coordinator.
- `app/` holds what verified code does not: the system wall clock and error types that carry
  the standard error traits.
- `tests/` exercises the library with the real `sha2`, `hmac` and `url` crates linked.
