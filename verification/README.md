# crypto_instrumentation

Counters for the cryptographic primitives that a group key agreement protocol
executes, with the time spent in public-key and in symmetric primitives. The
library under `src/` is verified with Verus.

- `src/cell.rs`: the arithmetic of a counter cell, which wraps around.
- `src/clock.rs`: measuring how long a call takes.
- `src/threads.rs`: the steps of several threads in some order.
- `src/keyhive/`: one set of registers for a process, and `laws.rs` on what
  snapshots show of a run.
- `src/openmls/`: a counting wrapper around a crypto provider (`crypto.rs`), the
  counters of a peer (`counters.rs`), the table they live in and the handles that
  name them (`table.rs`), a complete provider (`provider.rs`), and `laws.rs` on
  runs of several peers.
- `app/`: the registers as shared state of a process, and the wrapper behind the
  OpenMLS provider traits.
- `tests/`: tests on concrete values.

Shared state is an explicit argument of each operation, so a contract says which
cell changes, by how much, and that no other does. A handle is good only with the
table that gave it out.

What is taken on trust is that the clock of the standard library, the default key
store and the types of the provider interface exist; nothing is claimed of the
values that they give. So a contract says of a charged time that it was read off
the clock, and not that it is the span of the call: that rests on when the clock
is read. Where the clock behaves, `law_buckets_stay_below_elapsed` says what
follows from it.
