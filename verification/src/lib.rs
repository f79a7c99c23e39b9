//! A single-producer, multi-consumer broadcast queue for shared memory.
//!
//! One `Producer` owns a named shared-memory object and publishes values into a
//! ring whose length is a power of two. Any number of `Consumer`s, up to the
//! configured limit, attach to the same object and read the newest items
//! independently of each other.
//!
//! The object is here a `ShmRegion` of plain values. Where it lies in memory that
//! several processes map, the machines in `connect`, `steps` and `transfer` say which
//! system call or memory access comes next and decide how to go on from what came of
//! it. `pool_steps` does the same for the slots of a `mempool::MemPool` that threads
//! share.
//!
//! What holds of a queue as a whole is stated in `history`, as far as it is about the
//! stream of items, in `guarantees`, as far as it is about what single operations leave
//! behind, and in `mapping`, as far as it is about the object and its bytes.

pub mod connect;
pub mod consumer;
pub mod dump;
pub mod error;
pub mod guarantees;
pub mod heartbeats;
pub mod history;
pub mod layout;
pub mod mapping;
pub mod mempool;
pub mod name;
pub mod numeric;
pub mod pool_steps;
pub mod producer;
pub mod queue;
pub mod region;
pub mod sequence;
pub mod setup;
pub mod steps;
pub mod text;
pub mod transfer;

pub use consumer::{Consumer, ConsumerBuilder};
pub use error::{ShmError, ShmResult};
pub use layout::ShmState;
pub use producer::{Producer, ProducerBuilder};
