# experimental_crdt

Replicated sets that converge, with peer discovery through an object service
and garbage collection of tombstones. The library is written in Verus: each
executable function has a contract, and the contracts are proved.

## Layout

- `src/crdt`: the observed-remove set, its messages, and its laws
- `src/logical_clocks`: version vectors, dotted version vectors, matrix clocks
- `src/gc`: collection by a stable timestamp: records, coordinator, laws
- `src/engine`, `src/network`, `src/peers`, `src/server`: the replica, its
  messages, its peers, and what it does about requests
- `src/gc_protocol.rs`, `src/object_store.rs`: rounds of collection that
  replicas agree on through the object service alone
- `src/epoch_gc.rs`: collection by announced epochs
- `src/crdt_engine.rs`, `src/dissemination.rs`, `src/peers/heartbeat.rs`,
  `src/server/standalone.rs`: a replica that does not collect
- `src/client.rs`, `src/experiment.rs`: the client's commands, and the topology
  of an experiment
- `tests`: tests of the library
- `app`: the programs around the library: connections, the object service,
  command lines

The library does no I/O. Where a procedure reads or writes in between, it is a
function from a step and an event to the next step; the program performs the
step and hands the event back.

What comes from outside crates and is believed rather than proved stands in
functions marked `external_body`, each with the outside function's name in its
comment.
