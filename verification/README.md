# pevm

The core of a perpetual-futures orderbook engine that runs beside EVM
transactions in a partitioned parallel executor, verified with Verus.

## Layout

- `src/primitives/`: big-endian byte helpers, a 256-bit unsigned integer
  (arithmetic through `alloy-primitives`) and 20-byte addresses.
- `src/perpdex/state_traits.rs`: partition ids mixed into the high byte of
  location hashes, with the laws that the partition is read back and that
  two partitions never collide.
- `src/perpdex/state.rs`, `types.rs`: locations, values, operations and
  transactions.
- `src/perpdex/storage.rs`: the storage trait and an in-memory store whose
  contracts state reads after writes and the order index.
- `src/perpdex/executor_traits.rs`: read and write sets, the VM executor
  trait.
- `src/perpdex/execution_spec.rs`: what executing a transaction computes,
  as spec functions, and the laws of order placement and execution.
- `src/perpdex/executor.rs`: the executor, proved to compute exactly that.
- `src/hybrid.rs`: telling EVM and PerpDex transactions apart, and the byte
  format of PerpDex transactions, with the law that decoding inverts encoding.
- `app/`: the same API on alloy and revm types, error types with `Display`,
  and the type-erased VM metadata store.
- `tests/`: scenarios on concrete values.
