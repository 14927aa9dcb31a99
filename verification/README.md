# lapin

The connection core of an AMQP 0.9.1 client, verified with Verus: receive limits, the registry of
declared exchanges and queues and what it is charged for, the readiness of the transport, the scope
of a connection's tasks, the events that a connection hands to its listeners, and how a connection
is put together, asked for things and stopped.

- `src/` is the library. Each type is owned exclusively and changed through `&mut`; its contracts
  speak of a mathematical view. `src/laws.rs` states what holds of several operations together.
- `app/` shares these types between threads and tasks: locks, wakers, futures, streams, destructors
  and conversions from the types of the protocol crates.
- `tests/` runs the library.
