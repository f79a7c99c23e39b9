# shmfeeder

A single-producer, multi-consumer broadcast ring buffer for POSIX shared memory,
verified with Verus.

One producer owns a named queue object and publishes fixed-layout values into a
ring whose length is a power of two. Consumers attach to the object and read the
stream independently of each other, from its first item on if they attach before
anything was published, and from the newest one otherwise. A slow consumer misses
items that the producer has overwritten; it never sees an item twice or out of order.
A producer that takes over the queue of a dead one goes on with the stream.

## Layout

- `src/` is the verified library. It holds the object as plain values.
  - `layout`, `queue`, `heartbeats`, `region`: the parts of an object
  - `setup`, `producer`, `consumer`: setting it up, writing and reading
  - `history`: what the ring holds of the published stream, and what readers get
  - `connect`, `steps`, `transfer`, `pool_steps`: the same decisions one system call
    or one memory access at a time, for memory that other processes or threads share
  - `mempool`: a pool of slots with a tagged list of the free ones
  - `dump`, `error`, `name`, `numeric`, `sequence`, `text`: what these need
- `app/` maps objects with `libc`, performs the calls and accesses that the library
  asks for, and runs the examples.
- `tests/` runs the library on concrete values.

## Heartbeats

`HeartbeatMode` says which liveness records an object keeps: of the producer and of
the consumers (`Full`), of the producer alone (`ProducerOnly`), or none
(`Disabled`). Timestamps are plain numbers; all processes must use the same clock.
Zero stands in the record of a consumer that is not in use. At time zero no consumer
can attach, unless nothing is tolerated, so a record is never taken for unused while
its consumer's claim lasts.
